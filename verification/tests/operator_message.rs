use fulfillment::operator_message::{ErrorSummary, OperatorMessage, Part, ReqIds};

const PREFIX: &str = "🐱 bendobundles: ";

fn leak(s: String) -> &'static str {
    Box::leak(s.into_boxed_str())
}

fn ids() -> ReqIds {
    ReqIds::new(Some("2026/09/20/[$LATEST]abcdef0123"), 7)
}

#[test]
fn empty_input_yields_no_chunks_at_all() {
    for input in ["", "   ", "\n\n"] {
        let m = OperatorMessage::literal(leak(input.to_string()));
        assert!(m.chunks(PREFIX).is_empty(), "empty input must post nothing; got chunks for {input:?}");
    }
}

#[test]
fn no_emitted_chunk_is_empty_or_prefix_only() {
    let m = OperatorMessage::literal(leak("y".repeat(5000)));
    let cs = m.chunks(PREFIX);
    assert!(!cs.is_empty());
    for c in &cs {
        assert!(c.len() > PREFIX.len(), "prefix-only chunk: {c:?}");
    }
}

#[test]
fn chunks_are_bounded_including_prefix_and_label() {
    let m = OperatorMessage::literal(leak("x".repeat(5000)));
    for c in m.chunks(PREFIX) {
        assert!(c.chars().count() <= 2000, "chunk too long: {}", c.chars().count());
    }
}

#[test]
fn multi_chunk_messages_are_labelled() {
    let m = OperatorMessage::literal(leak("z".repeat(5000)));
    let cs = m.chunks(PREFIX);
    assert!(cs.len() > 1);
    assert!(cs[0].contains(&format!("(1/{})", cs.len())));
}

#[test]
fn the_2000_bound_wins_over_token_integrity() {
    let body = format!("{}**{}", "a".repeat(1999), "b".repeat(1999));
    let m = OperatorMessage::literal(leak(body));
    for c in m.chunks(PREFIX) {
        assert!(c.chars().count() <= 2000, "bound violated: {}", c.chars().count());
    }
}

#[test]
fn chunks_are_balanced_or_carry_the_forced_cut_marker() {
    let body = format!("{}\n**bold**\n{}", "a".repeat(1900), "b".repeat(1900));
    let m = OperatorMessage::literal(leak(body));
    for c in m.chunks(PREFIX) {
        let balanced = c.matches("**").count() % 2 == 0;
        assert!(
            balanced || c.contains(" …"),
            "chunk ends inside a ** pair with no forced-cut marker: {c}"
        );
    }
}

#[test]
fn chunk_bodies_concatenate_back_to_the_input() {
    let fixtures = [
        ("single-line, no marker", "q".repeat(5000)),
        (
            "boundary newline (allowance a)",
            format!("{}\n{}", "a".repeat(1900), "b".repeat(1900)),
        ),
        (
            "boundary newline + forced cut inside ** (allowances a and b)",
            format!("{}\n**bold**\n{}", "a".repeat(1900), "b".repeat(1900)),
        ),
    ];
    for (name, input) in fixtures {
        let m = OperatorMessage::literal(leak(input.clone()));
        let chunks = m.chunks(PREFIX);
        let bodies: Vec<String> = chunks
            .iter()
            .map(|c| {
                let body = c.strip_prefix(PREFIX).unwrap_or(c);
                let body = match body.rfind(" (") {
                    Some(i) if body.ends_with(')') => &body[..i],
                    _ => body,
                };
                body.to_string()
            })
            .collect();
        let joined: String = bodies.concat();
        let normalise = |s: &str| s.replace(" …", "").replace('\n', "");
        assert_eq!(
            normalise(&joined),
            normalise(&input),
            "[{name}] chunking lost or altered content beyond a boundary newline or a marker"
        );
        let (had, kept) = (input.matches('\n').count(), joined.matches('\n').count());
        assert!(kept <= had, "[{name}] chunking INVENTED a newline: {had} in, {kept} out");
        let lost = had - kept;
        let seams = chunks.len().saturating_sub(1);
        assert!(lost <= seams, "[{name}] {lost} newline(s) lost across {seams} seam(s)");
    }
}

#[test]
fn error_summary_never_carries_the_error_payload() {
    let mut ids = ids();
    let s = ErrorSummary::of("Leaky", &mut ids);
    let m = OperatorMessage::with(&[Part::Text("store write failed"), Part::Error(s)]);
    assert!(!m.as_str().contains("SECRET-KEY-abc123"), "payload leaked: {}", m.as_str());
    assert_eq!(m.as_str(), "store write failed [Leaky req abcdef0123-0]");
}

#[test]
fn error_summary_carries_a_joinable_req_id() {
    let mut ids = ids();
    let s = ErrorSummary::of("Leaky", &mut ids);
    let id = s.req_id().to_string();
    assert!(!id.is_empty());
    let m = OperatorMessage::with(&[Part::Text("store write failed"), Part::Error(s)]);
    assert!(m.as_str().contains(&id), "req_id must appear in the operator text");
}

#[test]
fn req_ids_are_distinct_within_a_process() {
    let mut ids = ids();
    let a = ErrorSummary::of("Leaky", &mut ids).req_id().to_string();
    let b = ErrorSummary::of("Leaky", &mut ids).req_id().to_string();
    assert_ne!(a, b, "two summaries minted the same join key");
}

#[test]
fn operator_text_and_log_fields_share_one_req_id() {
    let mut ids = ids();
    let s = ErrorSummary::of("Leaky", &mut ids);
    let (log_id, _kind) = s.log_fields();
    let log_id = log_id.to_string();
    let m = OperatorMessage::with(&[Part::Text("x"), Part::Error(s)]);
    assert!(
        m.as_str().contains(&log_id),
        "operator text and log record carry different ids — the breadcrumb is unjoinable"
    );
}

#[test]
fn fmt_substitutes_in_order_and_keeps_punctuation() {
    let m = OperatorMessage::fmt(
        "claim {} ({}) hit a DEAD key — humble says: \"{}\".",
        &[Part::Id("c-1"), Part::Id("g-2"), Part::Id("revoked")],
    );
    assert_eq!(m.as_str(), "claim c-1 (g-2) hit a DEAD key — humble says: \"revoked\".");
}

#[test]
fn fmt_renders_an_error_through_the_same_door_as_with() {
    let mut ids = ids();
    let s = ErrorSummary::of("Leaky", &mut ids);
    let (req, kind) = s.log_fields();
    let (req, kind) = (req.to_string(), kind);
    let m = OperatorMessage::fmt("write failed: {}", &[Part::Error(s)]);
    assert_eq!(m.as_str(), format!("write failed: [{kind} req {req}]"));
    assert!(
        !m.as_str().contains("SECRET-KEY-abc123"),
        "the error's own text reached the operator channel"
    );
}

#[test]
fn fmt_arity_mismatch_is_visible_not_silent() {
    let short = OperatorMessage::fmt("claim {} ({}) is stuck", &[Part::Id("c-1")]);
    assert_eq!(short.as_str(), "claim c-1 ({?}) is stuck");
    let long = OperatorMessage::fmt("claim {} is stuck", &[Part::Id("c-1"), Part::Id("g-2")]);
    assert!(
        long.as_str().contains("dropped 1 value(s)"),
        "a dropped argument left no trace in the message: {}",
        long.as_str()
    );
}

#[test]
fn fmt_with_no_placeholders_and_no_args_is_the_template() {
    let m = OperatorMessage::fmt("nothing to substitute", &[]);
    assert_eq!(m.as_str(), "nothing to substitute");
}

#[test]
fn joining_puts_no_space_before_the_first_character() {
    let m = OperatorMessage::with(&[Part::Text(""), Part::Id("a"), Part::Text("b")]);
    assert_eq!(m.as_str(), "a b");
    assert_eq!(OperatorMessage::with(&[]).as_str(), "");
}

#[test]
fn a_container_without_a_stream_goes_by_its_process() {
    let mut none = ReqIds::new(None, 4711);
    assert_eq!(none.new_req_id(), "p4711-0");
    assert_eq!(none.new_req_id(), "p4711-1");
    let mut empty = ReqIds::new(Some("stream]"), 5);
    assert_eq!(empty.new_req_id(), "p5-0");
    let mut plain = ReqIds::new(Some("plain"), 5);
    assert_eq!(plain.new_req_id(), "plain-0");
}

#[test]
fn a_forced_cut_inside_bold_text_is_marked() {
    let room = 2000 - PREFIX.chars().count() - 12;
    let body = format!("**{}", "a".repeat(room + 10));
    let m = OperatorMessage::literal(leak(body));
    let cs = m.chunks(PREFIX);
    assert_eq!(cs.len(), 2);
    assert_eq!(cs[0], format!("{PREFIX}**{} … (1/2)", "a".repeat(room - 2)));
    assert_eq!(cs[1], format!("{PREFIX}{} (2/2)", "a".repeat(12)));
}

#[test]
fn lines_are_kept_whole_and_blank_pieces_are_not_posted() {
    let room = 2000 - 2 - 12;
    let body = format!("{}\n{}\nend", "a".repeat(room - 1), " ".repeat(room - 1));
    let m = OperatorMessage::literal(leak(body));
    let cs = m.chunks("> ");
    assert_eq!(cs.len(), 2);
    assert_eq!(cs[0], format!("> {} (1/2)", "a".repeat(room - 1)));
    assert_eq!(cs[1], "> end (2/2)");
}

#[test]
fn the_2000_bound_wins_over_a_long_prefix() {
    for len in [1986, 1987, 1988, 1990, 1994, 1999, 2000, 2001, 5000] {
        let prefix = "p".repeat(len);
        for body in ["x", "xy", "one two three", "**bold** and more", "a\nb\nc"] {
            let m = OperatorMessage::literal(body);
            let cs = m.chunks(&prefix);
            assert!(!cs.is_empty(), "the message is lost behind a prefix of {len}");
            for c in &cs {
                assert!(c.chars().count() <= 2000, "too long: {} at {len}", c.chars().count());
                assert!(c.trim_start_matches('p').chars().count() > 0, "nothing said at {len}");
            }
        }
    }
}

#[test]
fn a_prefix_is_kept_as_long_as_there_is_room() {
    let m = OperatorMessage::literal("ab");
    let prefix = "p".repeat(1987);
    assert_eq!(m.chunks(&prefix), vec![format!("{prefix}a (1/2)"), format!("{prefix}b (2/2)")]);
    let one = OperatorMessage::literal("x");
    let prefix = "p".repeat(1999);
    assert_eq!(one.chunks(&prefix), vec![format!("{prefix}x")]);
    let cut = "p".repeat(1953);
    assert_eq!(one.chunks(&"p".repeat(2000)), vec![format!("{cut}x")]);
    assert_eq!(
        m.chunks(&"p".repeat(1995)),
        vec![format!("{cut}a (1/2)"), format!("{cut}b (2/2)")]
    );
}

#[test]
fn thousands_of_posts_keep_the_bound() {
    let prefix = "p".repeat(1900);
    let line = format!("**{}", "a".repeat(86));
    let text = line.repeat(1200);
    let m = OperatorMessage::literal(leak(text.clone()));
    let cs = m.chunks(&prefix);
    let n = cs.len();
    assert!(n > 1000);
    let mut joined = String::new();
    for (i, c) in cs.iter().enumerate() {
        assert!(c.chars().count() <= 2000, "too long: {}", c.chars().count());
        let label = format!(" ({}/{n})", i + 1);
        let body = c.strip_prefix(&prefix).unwrap().strip_suffix(&label).unwrap();
        joined.push_str(body.strip_suffix(" …").unwrap_or(body));
    }
    assert_eq!(joined, text);
}

#[test]
fn white_space_of_every_kind_is_trimmed_and_nothing_else_is() {
    let spaces = "\t\n\u{b}\u{c}\r \u{85}\u{a0}\u{1680}\u{2000}\u{200a}\u{2028}\u{2029}\u{202f}\u{205f}\u{3000}";
    let m = OperatorMessage::literal(leak(format!("{spaces}a{spaces}b{spaces}")));
    assert_eq!(m.chunks(""), vec![format!("a{spaces}b")]);
    for c in ['\u{8}', '\u{e}', '\u{180e}', '\u{200b}', '\u{2060}', '\u{feff}'] {
        assert_eq!(OperatorMessage::literal(leak(c.to_string())).chunks(""), vec![c.to_string()]);
    }
}
