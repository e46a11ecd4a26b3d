//! How texts are written and read back, and how a message to the operator is put together and posted.
use vstd::prelude::*;
use crate::operator_message::{
    at_hole, budget_of, error_text, filled, fmt_text, holes, joined, line_end, pieces, plain_posts,
    post, posts, req_id_base, star_pairs, stream_tail, visible, Packing, Piece,
};
use crate::text::{
    before, blank, decimal, decimal_is_nonempty, is_space, trim, trim_end, trim_end_is_tight,
    trim_start,
};

verus! {

// ---- Numbers ----------------------------------------------------------------------------------

/// The number that a row of digits names.
pub open spec fn number(s: Seq<char>) -> int
    decreases s.len(),
{
    if s.len() == 0 {
        0
    } else {
        10 * number(s.drop_last()) + (s.last() as int - '0' as int)
    }
}

/// A number is written with digits alone, and reads as that number; it does not start with a zero unless
/// it is zero.
pub proof fn a_number_reads_as_itself(n: nat)
    ensures
        number(decimal(n)) == n,
        forall|i: int| 0 <= i < decimal(n).len() ==> '0' <= #[trigger] decimal(n)[i] <= '9',
        n > 0 ==> decimal(n)[0] != '0',
    decreases n,
{
    if n < 10 {
        assert(decimal(n).drop_last() =~= Seq::empty());
        assert(number(decimal(n).drop_last()) == 0);
    } else {
        a_number_reads_as_itself(n / 10);
        decimal_is_nonempty(n / 10);
        let head = decimal(n / 10);
        assert(decimal(n).drop_last() =~= head);
        assert forall|i: int| 0 <= i < decimal(n).len() implies '0' <= #[trigger] decimal(n)[i]
            <= '9' by {
            if i < head.len() {
                assert(decimal(n)[i] == head[i]);
            }
        }
        assert(decimal(n)[0] == head[0]);
    }
}

// ---- Trimming and order -----------------------------------------------------------------------

/// A trimmed text is what stands between the white space at either end of a text.
pub proof fn a_trimmed_text_stands_between_white_space(s: Seq<char>)
    ensures
        exists|i: int, j: int|
            0 <= i <= j <= s.len() && trim(s) == #[trigger] s.subrange(i, j) && blank(s.take(i))
                && blank(s.skip(j)),
        trim(s).len() > 0 ==> !is_space(trim(s)[0]) && !is_space(trim(s).last()),
{
    let t = trim_start(s);
    the_start_is_blank(s);
    the_end_is_blank(t);
    trim_end_is_tight(t);
    let i = s.len() - t.len();
    let j = i + trim_end(t).len();
    assert(trim(s) =~= s.subrange(i, j)) by {
        assert(t =~= s.skip(i));
        assert(trim_end(t) =~= t.take(trim_end(t).len() as int));
    }
    assert forall|k: int| 0 <= k < s.skip(j).len() implies is_space(s.skip(j)[k]) by {
        assert(s.skip(j)[k] == t.skip(trim_end(t).len() as int)[k]);
    }
    if trim(s).len() > 0 {
        assert(trim(s)[0] == t[0]);
    }
}

proof fn the_start_is_blank(s: Seq<char>)
    ensures
        trim_start(s).len() <= s.len(),
        trim_start(s) == s.skip(s.len() - trim_start(s).len()),
        blank(s.take(s.len() - trim_start(s).len())),
        trim_start(s).len() > 0 ==> !is_space(trim_start(s)[0]),
    decreases s.len(),
{
    if s.len() > 0 && is_space(s[0]) {
        let r = s.drop_first();
        the_start_is_blank(r);
        let n = s.len() - trim_start(s).len();
        assert(s.skip(n) =~= r.skip(n - 1));
        assert forall|i: int| 0 <= i < n implies is_space(s.take(n)[i]) by {
            if i > 0 {
                assert(s.take(n)[i] == r.take(n - 1)[i - 1]);
            }
        }
    } else {
        assert(s.skip(0) =~= s);
    }
}

proof fn the_end_is_blank(s: Seq<char>)
    ensures
        trim_end(s).len() <= s.len(),
        trim_end(s) == s.take(trim_end(s).len() as int),
        blank(s.skip(trim_end(s).len() as int)),
    decreases s.len(),
{
    if s.len() > 0 && is_space(s.last()) {
        let r = s.drop_last();
        the_end_is_blank(r);
        let n = trim_end(s).len() as int;
        assert(s.take(n) =~= r.take(n));
        assert forall|i: int| 0 <= i < s.skip(n).len() implies is_space(s.skip(n)[i]) by {
            if i < r.skip(n).len() {
                assert(s.skip(n)[i] == r.skip(n)[i]);
            }
        }
    } else {
        assert(s.take(s.len() as int) =~= s);
    }
}

/// Of two texts, that comes first whose character has the lower code point where they first differ; one
/// that goes on where the other ends comes second.
pub proof fn the_first_difference_decides(a: Seq<char>, b: Seq<char>, i: int)
    requires
        0 <= i <= a.len(),
        i < b.len(),
        forall|k: int| 0 <= k < i ==> #[trigger] a[k] == b[k],
    ensures
        i == a.len() ==> before(a, b) && !before(b, a),
        i < a.len() && (a[i] as int) < (b[i] as int) ==> before(a, b) && !before(b, a),
    decreases i,
{
    if i > 0 {
        let (p, q) = (a.drop_first(), b.drop_first());
        assert(a[0] == b[0]);
        assert forall|k: int| 0 <= k < i - 1 implies #[trigger] p[k] == q[k] by {
            assert(p[k] == a[k + 1]);
        }
        the_first_difference_decides(p, q, i - 1);
    }
}

/// No text comes before itself.
pub proof fn nothing_comes_before_itself(s: Seq<char>)
    ensures
        !before(s, s),
    decreases s.len(),
{
    if s.len() > 0 {
        nothing_comes_before_itself(s.drop_first());
    }
}

// ---- Join keys --------------------------------------------------------------------------------

/// The tail of a stream's name ends it, starts behind its last bracket, and has none.
pub proof fn a_tail_starts_behind_the_last_bracket(s: Seq<char>)
    ensures
        ({
            let t = stream_tail(s);
            &&& t.len() <= s.len()
            &&& t == s.skip(s.len() - t.len())
            &&& forall|i: int| 0 <= i < t.len() ==> #[trigger] t[i] != ']'
            &&& t.len() < s.len() ==> s[s.len() - t.len() - 1] == ']'
        }),
    decreases s.len(),
{
    if s.len() > 0 && s.last() != ']' {
        a_tail_starts_behind_the_last_bracket(s.drop_last());
        let t = stream_tail(s.drop_last());
        assert(s.skip(s.len() - stream_tail(s).len()) =~= t.push(s.last()));
    } else {
        assert(s.skip(s.len() as int) =~= Seq::empty());
    }
}

/// A container goes by the tail of its stream, or by its process where there is none.
pub proof fn a_container_goes_by_its_stream(s: Seq<char>, pid: nat)
    ensures
        req_id_base(None, pid) == "p"@ + decimal(pid),
        s.len() > 0 && s.last() != ']' ==> req_id_base(Some(s), pid) == stream_tail(s),
        s.len() == 0 || s.last() == ']' ==> req_id_base(Some(s), pid) == "p"@ + decimal(pid),
{
}

// ---- Templates --------------------------------------------------------------------------------

/// Whether a wording has no place to be filled.
pub open spec fn is_plain(s: Seq<char>) -> bool {
    forall|i: int| 0 <= i < s.len() ==> #[trigger] s[i] != '{'
}

/// The first place of a wording takes the first argument, and the rest of the wording the others; a
/// place that is left over is marked. What stands around the places stays as it is.
pub proof fn a_place_takes_the_next_argument(a: Seq<char>, b: Seq<char>, args: Seq<Seq<char>>)
    requires
        is_plain(a),
    ensures
        filled(a, args) == a,
        holes(a) == 0,
        holes(a + "{}"@ + b) == 1 + holes(b),
        args.len() > 0 ==> filled(a + "{}"@ + b, args) == a + args[0] + filled(b, args.skip(1)),
        args.len() == 0 ==> filled(a + "{}"@ + b, args) == a + "{?}"@ + filled(b, args),
    decreases a.len(),
{
    reveal_strlit("{}");
    let all = a + "{}"@ + b;
    if a.len() == 0 {
        assert(all.skip(2) =~= b);
        assert(at_hole(all));
        assert(a + args[0] =~= args[0]);
        assert(a + "{?}"@ =~= "{?}"@);
        assert(filled(a, args) =~= a);
    } else {
        let rest = a.skip(1);
        assert(a[0] != '{');
        assert(all[0] == a[0]);
        assert forall|i: int| 0 <= i < rest.len() implies #[trigger] rest[i] != '{' by {
            assert(rest[i] == a[i + 1]);
        }
        a_place_takes_the_next_argument(rest, b, args);
        assert(all.skip(1) =~= rest + "{}"@ + b);
        assert(!at_hole(all) && !at_hole(a));
        assert(seq![a[0]] + rest =~= a);
        if args.len() > 0 {
            assert(seq![a[0]] + (rest + args[0] + filled(b, args.skip(1))) =~= a + args[0] + filled(
                b,
                args.skip(1),
            ));
        } else {
            assert(seq![a[0]] + (rest + "{?}"@ + filled(b, args)) =~= a + "{?}"@ + filled(b, args));
        }
    }
}

/// Where a wording has a place for every argument nothing is added to it; otherwise it ends by saying
/// how many were left out.
pub proof fn arguments_without_a_place_are_counted(t: Seq<char>, args: Seq<Seq<char>>, lost: nat)
    ensures
        args.len() <= holes(t) ==> fmt_text(t, args) == filled(t, args),
        lost > 0 && args.len() == holes(t) + lost ==> fmt_text(t, args) == filled(t, args)
            + " [!template dropped "@ + decimal(lost) + " value(s)]"@,
{
}

/// Pieces stand one behind the other with a space between them, and none before the first.
pub proof fn pieces_are_joined_by_spaces(parts: Seq<Seq<char>>, p: Seq<char>)
    ensures
        joined(Seq::<Seq<char>>::empty().push(p)) == p,
        joined(parts).len() > 0 ==> joined(parts.push(p)) == joined(parts) + " "@ + p,
        joined(parts).len() == 0 ==> joined(parts.push(p)) == p,
{
    assert(Seq::<Seq<char>>::empty().push(p).drop_last() =~= Seq::empty());
    assert(joined(Seq::<Seq<char>>::empty()).len() == 0);
    assert(parts.push(p).drop_last() =~= parts);
}

/// An error reads as the name of its type and its join key, in brackets.
pub proof fn an_error_reads_as_its_kind_and_key(kind: Seq<char>, key: Seq<char>)
    ensures
        error_text(kind, key) == "["@ + kind + " req "@ + key + "]"@,
{
}

// ---- Posts ------------------------------------------------------------------------------------

/// A pair of stars counts once, wherever it stands between texts without stars.
pub proof fn a_pair_of_stars_counts_once(a: Seq<char>, b: Seq<char>)
    requires
        forall|i: int| 0 <= i < a.len() ==> #[trigger] a[i] != '*',
    ensures
        star_pairs(a) == 0,
        star_pairs(a + "**"@ + b) == 1 + star_pairs(b),
    decreases a.len(),
{
    reveal_strlit("**");
    let all = a + "**"@ + b;
    if a.len() == 0 {
        assert(all.skip(2) =~= b);
    } else {
        let rest = a.skip(1);
        assert(a[0] != '*');
        assert(all[0] == a[0]);
        assert forall|i: int| 0 <= i < rest.len() implies #[trigger] rest[i] != '*' by {
            assert(rest[i] == a[i + 1]);
        }
        a_pair_of_stars_counts_once(rest, b);
        assert(all.skip(1) =~= rest + "**"@ + b);
    }
}

/// A line ends with its line feed.
pub proof fn a_line_ends_with_its_line_feed(a: Seq<char>, b: Seq<char>)
    requires
        forall|i: int| 0 <= i < a.len() ==> #[trigger] a[i] != '\n',
    ensures
        line_end(a.push('\n') + b) == a.len() + 1,
        line_end(a) == a.len(),
    decreases a.len(),
{
    let all = a.push('\n') + b;
    if a.len() > 0 {
        let rest = a.skip(1);
        assert(a[0] != '\n');
        assert(all[0] == a[0]);
        assert forall|i: int| 0 <= i < rest.len() implies #[trigger] rest[i] != '\n' by {
            assert(rest[i] == a[i + 1]);
        }
        a_line_ends_with_its_line_feed(rest, b);
        assert(all.skip(1) =~= rest.push('\n') + b);
    }
}

/// A line that fits into a post stays whole: it joins the current piece if there is room, and otherwise
/// starts one of its own, before which nothing is cut.
pub proof fn a_line_that_fits_is_not_cut(p: Packing, line: Seq<char>, budget: nat)
    requires
        line.len() <= budget,
    ensures
        p.cur.len() + line.len() <= budget ==> p.add_line(line, budget).done == p.done && p.add_line(
            line,
            budget,
        ).cur == p.cur + line,
        p.cur.len() > 0 && p.cur.len() + line.len() > budget ==> p.add_line(line, budget).cur == line
            && p.add_line(line, budget).done == p.done.push(Piece { text: p.cur, marked: false }),
{
    assert(Seq::empty() + line =~= line);
}

/// A line that fits into no post is cut where the post is full, and the cut is shown exactly where it
/// leaves a pair of stars open.
pub proof fn a_forced_cut_shows_an_open_pair(p: Packing, c: char, budget: nat)
    ensures
        p.cur.len() + 1 <= budget ==> p.add_char(c, budget).done == p.done && p.add_char(
            c,
            budget,
        ).cur == p.cur.push(c),
        p.cur.len() + 1 > budget ==> {
            let q = p.add_char(c, budget);
            &&& q.cur == seq![c]
            &&& q.done.len() == p.done.len() + 1
            &&& q.done.last().text == p.cur
            &&& q.done.last().marked <==> star_pairs(p.cur) % 2 == 1
        },
        ({
            let open = Piece { text: p.cur, marked: true };
            let shut = Piece { text: p.cur, marked: false };
            open.shown() == p.cur + " …"@ && shut.shown() == p.cur
        }),
{
    assert(Seq::empty().push(c) =~= seq![c]);
}

proof fn lines_that_fit_stay_together(p: Packing, s: Seq<char>, budget: nat)
    requires
        p.cur.len() + s.len() <= budget,
    ensures
        p.add_lines(s, budget) == (Packing { done: p.done, cur: p.cur + s }),
    decreases s.len(),
{
    if s.len() == 0 {
        assert(p.cur + s =~= p.cur);
    } else {
        a_line_has_an_end(s);
        let k = line_end(s);
        let q = p.add_line(s.take(k), budget);
        assert(q == (Packing { done: p.done, cur: p.cur + s.take(k) }));
        lines_that_fit_stay_together(q, s.skip(k), budget);
        assert(p.cur + s.take(k) + s.skip(k) =~= p.cur + s);
    }
}

proof fn a_line_has_an_end(s: Seq<char>)
    ensures
        s.len() > 0 ==> 0 < line_end(s) <= s.len(),
        s.len() == 0 ==> line_end(s) == 0,
    decreases s.len(),
{
    if s.len() > 0 && s[0] != '\n' {
        a_line_has_an_end(s.skip(1));
    }
}

/// A message that fits into one post is one post: the prefix and the message, without a number.
pub proof fn a_short_message_is_one_post(prefix: Seq<char>, text: Seq<char>)
    requires
        !blank(trim(text)),
        prefix.len() + trim(text).len() + 12 <= 2000,
    ensures
        posts(prefix, text) == seq![prefix + trim(text)],
{
    let t = trim(text);
    let budget = budget_of(prefix.len());
    lines_that_fit_stay_together(Packing::start(), t, budget);
    assert(Seq::empty() + t =~= t);
    let all = pieces(text, budget);
    let only = Piece { text: t, marked: false };
    assert(all =~= seq![only]);
    assert(all.drop_last() =~= Seq::empty());
    reveal_with_fuel(visible, 2);
    assert(visible(all) =~= seq![only]);
    trim_end_is_tight(trim_start(text));
    assert(trim_end(t) == t);
    assert(plain_posts(prefix, text) =~= seq![prefix + t]);
}

/// Where there are several posts each ends with its number, counted from one, and how many there are.
pub proof fn posts_are_numbered(prefix: Seq<char>, p: Piece, i: int, n: nat)
    requires
        0 <= i < n,
        n <= u64::MAX,
    ensures
        n == 1 ==> post(prefix, p, i, n) == prefix + trim_end(p.shown()),
        n > 1 ==> post(prefix, p, i, n) == prefix + trim_end(p.shown()) + " ("@ + decimal(
            (i + 1) as nat,
        ) + "/"@ + decimal(n) + ")"@,
{
}

} // verus!
