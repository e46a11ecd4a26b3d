use fulfillment::heal_pairs::{find_pairs, pair_verdict, Verdict};
use fulfillment::humble::KeyEntry;
use fulfillment::model::{AppidSource, Game, GameStatus};

fn game(id: &str, mn: &str) -> Game {
    Game {
        id: id.into(),
        title: "T".into(),
        bundle: "B".into(),
        gamekey: "GK".into(),
        machine_name: mn.into(),
        key_type: "steam".into(),
        giftable: true,
        hidden: false,
        status: GameStatus::Available,
        claim_id: None,
        artwork_url: None,
        keyindex: 0,
        requires_choice: false,
        steam_app_id: None,
        appid_source: None,
        owned_by_ben: false,
    }
}

fn key_entry(mn: &str) -> KeyEntry {
    KeyEntry {
        machine_name: mn.into(),
        human_name: "H".into(),
        key_type: "steam".into(),
        redeemed: false,
        expired: false,
        giftable: true,
        keyindex: 0,
        redeemed_key_val: None,
        steam_app_id: None,
        is_gift: None,
    }
}

/// What a pick's key is named after, for the names used here.
fn bases(mn: &str) -> Option<(String, Option<String>)> {
    let base = mn.strip_suffix("_choice_steam")?;
    Some((base.to_string(), base.strip_suffix("_row").map(String::from)))
}

fn marks(keys: &[KeyEntry], offered: &str) -> Vec<bool> {
    keys.iter()
        .map(|k| match bases(&k.machine_name) {
            Some((exact, stripped)) => exact == offered || stripped.as_deref() == Some(offered),
            None => false,
        })
        .collect()
}

fn verdict(sibling: &Game, offered: Option<&Game>, live: &Vec<KeyEntry>) -> Verdict {
    let m = marks(live, offered.map_or("", |o| o.machine_name.as_str()));
    pair_verdict(sibling, offered, live, &m)
}

#[test]
fn gate_pass_yields_heal() {
    let sibling = game("GK:omega_row_choice_steam", "omega_row_choice_steam");
    let offered = game("GK:omega", "omega");
    let live = vec![key_entry("omega_row_choice_steam")];
    assert_eq!(verdict(&sibling, Some(&offered), &live), Verdict::Heal);
}

#[test]
fn status_not_available_skips() {
    let mut sibling = game("GK:omega_row_choice_steam", "omega_row_choice_steam");
    sibling.status = GameStatus::Gifted;
    let offered = game("GK:omega", "omega");
    let live = vec![key_entry("omega_row_choice_steam")];
    assert!(matches!(verdict(&sibling, Some(&offered), &live), Verdict::Skip(r) if r.contains("not Available")));
}

#[test]
fn hidden_sibling_skips() {
    let mut sibling = game("GK:omega_row_choice_steam", "omega_row_choice_steam");
    sibling.hidden = true;
    let offered = game("GK:omega", "omega");
    let live = vec![key_entry("omega_row_choice_steam")];
    assert!(matches!(verdict(&sibling, Some(&offered), &live), Verdict::Skip(r) if r.contains("hidden")));
}

#[test]
fn claim_entangled_skips() {
    let mut sibling = game("GK:omega_row_choice_steam", "omega_row_choice_steam");
    sibling.claim_id = Some("c1".into());
    let offered = game("GK:omega", "omega");
    let live = vec![key_entry("omega_row_choice_steam")];
    assert!(matches!(verdict(&sibling, Some(&offered), &live), Verdict::Skip(r) if r.contains("claim-entangled")));
}

#[test]
fn offered_still_requires_choice_skips() {
    let sibling = game("GK:omega_row_choice_steam", "omega_row_choice_steam");
    let mut offered = game("GK:omega", "omega");
    offered.requires_choice = true;
    let live = vec![key_entry("omega_row_choice_steam")];
    assert!(matches!(verdict(&sibling, Some(&offered), &live), Verdict::Skip(r) if r.contains("not flipped")));
}

#[test]
fn order_not_corroborating_skips() {
    let sibling = game("GK:omega_row_choice_steam", "omega_row_choice_steam");
    let offered = game("GK:omega", "omega");
    let live: Vec<KeyEntry> = vec![];
    assert!(matches!(verdict(&sibling, Some(&offered), &live), Verdict::Skip(r) if r.contains("corroborate")));
}

#[test]
fn manual_appid_sibling_skips() {
    let mut sibling = game("GK:omega_row_choice_steam", "omega_row_choice_steam");
    sibling.appid_source = Some(AppidSource::Manual);
    let offered = game("GK:omega", "omega");
    let live = vec![key_entry("omega_row_choice_steam")];
    assert!(matches!(verdict(&sibling, Some(&offered), &live), Verdict::Skip(r) if r.contains("Manual")));
}

#[test]
fn benredeemed_sibling_heals_when_order_confirms() {
    let mut sibling = game("GK:omega_row_choice_steam", "omega_row_choice_steam");
    sibling.status = GameStatus::BenRedeemed;
    let offered = game("GK:omega", "omega");
    let mut entry = key_entry("omega_row_choice_steam");
    entry.redeemed = true;
    let live = vec![entry];
    assert_eq!(verdict(&sibling, Some(&offered), &live), Verdict::Heal);
}

#[test]
fn benredeemed_sibling_skips_when_order_does_not_confirm() {
    let mut sibling = game("GK:omega_row_choice_steam", "omega_row_choice_steam");
    sibling.status = GameStatus::BenRedeemed;
    let offered = game("GK:omega", "omega");
    let live = vec![key_entry("omega_row_choice_steam")];
    assert!(
        matches!(verdict(&sibling, Some(&offered), &live), Verdict::Skip(r) if r.contains("does not confirm redemption"))
    );
}

#[test]
fn expired_sibling_heals_when_order_confirms() {
    let mut sibling = game("GK:omega_row_choice_steam", "omega_row_choice_steam");
    sibling.status = GameStatus::Expired;
    let offered = game("GK:omega", "omega");
    let mut entry = key_entry("omega_row_choice_steam");
    entry.expired = true;
    let live = vec![entry];
    assert_eq!(verdict(&sibling, Some(&offered), &live), Verdict::Heal);
}

#[test]
fn gifted_sibling_still_skips() {
    let mut sibling = game("GK:omega_row_choice_steam", "omega_row_choice_steam");
    sibling.status = GameStatus::Gifted;
    let offered = game("GK:omega", "omega");
    let mut entry = key_entry("omega_row_choice_steam");
    entry.redeemed = true;
    entry.expired = true;
    let live = vec![entry];
    assert!(matches!(verdict(&sibling, Some(&offered), &live), Verdict::Skip(r) if r.contains("not Available")));
}

#[test]
fn find_pairs_matches_the_row_sibling() {
    let games = vec![
        game("GK:omega", "omega"),
        game("GK:omega_row_choice_steam", "omega_row_choice_steam"),
        game("GK:solo_choice_steam", "solo_choice_steam"),
    ];
    let b: Vec<_> = games.iter().map(|g| bases(&g.machine_name)).collect();
    let pairs = find_pairs(&games, &b);
    assert_eq!(pairs.len(), 1);
    assert_eq!(pairs[0].sibling.id, "GK:omega_row_choice_steam");
    assert_eq!(pairs[0].offered_id, "GK:omega");
}

#[test]
fn a_missing_offered_row_and_an_unconfirmed_expiry_are_named() {
    let mut sibling = game("GK:omega_row_choice_steam", "omega_row_choice_steam");
    let live = vec![key_entry("omega_row_choice_steam")];
    assert_eq!(
        verdict(&sibling, None, &live),
        Verdict::Skip("offered row missing (no flip target)".into())
    );
    sibling.status = GameStatus::Expired;
    assert_eq!(
        verdict(&sibling, Some(&game("GK:omega", "omega")), &live),
        Verdict::Skip("status Expired but live order does not confirm expiration".into())
    );
    sibling.status = GameStatus::Pending;
    assert_eq!(
        verdict(&sibling, None, &live),
        Verdict::Skip("sibling status is Pending, not Available".into())
    );
}

#[test]
fn the_exact_name_is_tried_before_the_one_without_its_region() {
    let games = vec![
        game("GK:omega", "omega"),
        game("GK:omega_row", "omega_row"),
        game("GK:omega_row_choice_steam", "omega_row_choice_steam"),
    ];
    let b: Vec<_> = games.iter().map(|g| bases(&g.machine_name)).collect();
    let pairs = find_pairs(&games, &b);
    assert_eq!(pairs.len(), 1);
    assert_eq!(pairs[0].offered_id, "GK:omega_row");
    assert_eq!(pairs[0].gamekey, "GK");
}
