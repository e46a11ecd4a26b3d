//! The only door through which text reaches the operator channel.
//!
//! An `OperatorMessage` is made of fixed wording and of plain identifiers. An error enters it as an
//! `ErrorSummary` alone: the name of its type and a join key, never its own text.
use vstd::prelude::*;
use vstd::string::*;
use crate::text::{
    blank, chars_of, decimal, decimal_below_thousand, decimal_is_injective, decimal_of,
    decimal_of_a_word, is_blank, is_space, text_of, trim, trim_end, trim_end_is_tight, trim_end_len,
    trim_of_blank, trimmed, views,
};

verus! {

broadcast use vstd::string::group_string_axioms;

// ---- Join keys --------------------------------------------------------------------------------

/// What follows the last `]` of a log stream's name.
pub open spec fn stream_tail(s: Seq<char>) -> Seq<char>
    decreases s.len(),
{
    if s.len() == 0 || s.last() == ']' {
        Seq::empty()
    } else {
        stream_tail(s.drop_last()).push(s.last())
    }
}

/// The part of a join key that tells one container from another.
pub open spec fn req_id_base(log_stream: Option<Seq<char>>, pid: nat) -> Seq<char> {
    match log_stream {
        Some(s) if stream_tail(s).len() > 0 => stream_tail(s),
        _ => "p"@ + decimal(pid),
    }
}

/// The join key number `n` of a container.
pub open spec fn req_id_text(base: Seq<char>, n: nat) -> Seq<char> {
    base + "-"@ + decimal(n)
}

/// Two numbers of one container never share a join key.
pub proof fn req_ids_are_distinct(base: Seq<char>, m: nat, n: nat)
    requires
        m != n,
    ensures
        req_id_text(base, m) != req_id_text(base, n),
{
    let head = base + "-"@;
    if req_id_text(base, m) == req_id_text(base, n) {
        assert(req_id_text(base, m).skip(head.len() as int) =~= decimal(m));
        assert(req_id_text(base, n).skip(head.len() as int) =~= decimal(n));
        decimal_is_injective(m, n);
    }
}

/// The join keys of one container: what names the container, and the number of the next key.
pub struct ReqIds {
    base: String,
    next: u64,
}

impl ReqIds {
    pub closed spec fn base(&self) -> Seq<char> {
        self.base@
    }

    pub closed spec fn next(&self) -> u64 {
        self.next
    }

    /// Starts the keys of a container that writes to `log_stream`, or of process `pid` where the
    /// stream has no name to go by.
    pub fn new(log_stream: Option<&str>, pid: u32) -> (r: ReqIds)
        ensures
            r.base() == req_id_base(
                match log_stream {
                    Some(s) => Some(s@),
                    None => None,
                },
                pid as nat,
            ),
            r.next() == 0,
    {
        if let Some(s) = log_stream {
            let v = chars_of(s);
            let mut k: usize = v.len();
            assert(s@.take(k as int) =~= s@);
            assert(s@.skip(k as int) =~= Seq::<char>::empty());
            assert(stream_tail(s@) =~= stream_tail(s@.take(k as int)) + s@.skip(k as int));
            while k > 0 && v[k - 1] != ']'
                invariant
                    v@ == s@,
                    k <= v@.len(),
                    stream_tail(s@) == stream_tail(s@.take(k as int)) + s@.skip(k as int),
                decreases k,
            {
                assert(s@.take(k as int).drop_last() =~= s@.take(k - 1));
                assert(s@.skip(k - 1) =~= seq![s@[k - 1]] + s@.skip(k as int));
                assert(stream_tail(s@.take(k as int)) + s@.skip(k as int) =~= stream_tail(
                    s@.take(k - 1),
                ) + s@.skip(k - 1));
                k -= 1;
            }
            assert(stream_tail(s@) =~= s@.skip(k as int));
            if k < v.len() {
                let base = text_of(&v, k, v.len());
                assert(base@ =~= s@.skip(k as int));
                return ReqIds { base, next: 0 };
            }
        }
        let base = String::from_str("p").concat(decimal_of(pid as u64).as_str());
        ReqIds { base, next: 0 }
    }

    /// Mints the next key. The number wraps once every `u64` has been used.
    pub fn new_req_id(&mut self) -> (r: String)
        ensures
            r@ == req_id_text(old(self).base(), old(self).next() as nat),
            final(self).base() == old(self).base(),
            final(self).next() == if old(self).next() == u64::MAX {
                0
            } else {
                (old(self).next() + 1) as u64
            },
    {
        let n: u64 = self.next;
        self.next = n.wrapping_add(1);
        self.base.clone().concat("-").concat(decimal_of(n).as_str())
    }
}

// ---- Errors, as the operator sees them --------------------------------------------------------

/// An error by the name of its type and by a join key.
///
/// The kind is published: it goes to the operator channel.
pub struct ErrorSummary {
    kind: &'static str,
    req_id: String,
}

impl ErrorSummary {
    pub closed spec fn kind_text(&self) -> Seq<char> {
        self.kind@
    }

    pub closed spec fn req_id_text(&self) -> Seq<char> {
        self.req_id@
    }

    /// Summarises an error of the type that goes by the name `kind`, under a fresh join key. The
    /// error itself is not handed over, so its text cannot be read.
    pub fn of(kind: &'static str, ids: &mut ReqIds) -> (r: ErrorSummary)
        ensures
            r.kind_text() == kind@,
            r.req_id_text() == req_id_text(old(ids).base(), old(ids).next() as nat),
            final(ids).base() == old(ids).base(),
            final(ids).next() == if old(ids).next() == u64::MAX {
                0
            } else {
                (old(ids).next() + 1) as u64
            },
    {
        ErrorSummary { kind, req_id: ids.new_req_id() }
    }

    pub fn req_id(&self) -> (r: &str)
        ensures
            r@ == self.req_id_text(),
    {
        self.req_id.as_str()
    }

    pub fn kind(&self) -> (r: &'static str)
        ensures
            r@ == self.kind_text(),
    {
        self.kind
    }

    /// The pair that the log record carries: the same key and kind that the operator reads.
    pub fn log_fields(&self) -> (r: (&str, &'static str))
        ensures
            r.0@ == self.req_id_text(),
            r.1@ == self.kind_text(),
    {
        (self.req_id.as_str(), self.kind)
    }
}

/// One piece of an operator message.
pub enum Part<'a> {
    Text(&'static str),
    Id(&'a str),
    Error(ErrorSummary),
}

/// How an error reads on the operator side.
pub open spec fn error_text(kind: Seq<char>, req_id: Seq<char>) -> Seq<char> {
    "["@ + kind + " req "@ + req_id + "]"@
}

impl<'a> Part<'a> {
    /// How the piece reads.
    pub open spec fn text(&self) -> Seq<char> {
        match self {
            Part::Text(t) => t@,
            Part::Id(i) => i@,
            Part::Error(e) => error_text(e.kind_text(), e.req_id_text()),
        }
    }
}

/// How each piece of a message reads.
pub open spec fn part_texts(parts: Seq<Part<'_>>) -> Seq<Seq<char>> {
    Seq::new(parts.len(), |i: int| parts[i].text())
}

/// The one rendering of a piece: every constructor of a message goes through it.
pub fn render(p: &Part<'_>) -> (r: String)
    ensures
        r@ == p.text(),
{
    match p {
        Part::Text(t) => String::from_str(t),
        Part::Id(i) => String::from_str(i),
        Part::Error(e) => String::from_str("[").concat(e.kind()).concat(" req ").concat(
            e.req_id(),
        ).concat("]"),
    }
}

/// The key that the log record carries stands, whole, in what the operator reads.
pub proof fn operator_text_carries_the_join_key(e: ErrorSummary)
    ensures
        exists|i: int, j: int|
            0 <= i <= j <= Part::Error(e).text().len() && #[trigger] Part::Error(
                e,
            ).text().subrange(i, j) == e.req_id_text(),
{
    let t = Part::Error(e).text();
    let i = ("["@ + e.kind_text() + " req "@).len() as int;
    let j = i + e.req_id_text().len();
    assert(t.subrange(i, j) =~= e.req_id_text());
}

// ---- Messages ---------------------------------------------------------------------------------

/// Text that may be shown to the operator. It cannot be made from a text known only at run time.
pub struct OperatorMessage(String);

impl View for OperatorMessage {
    type V = Seq<char>;

    closed spec fn view(&self) -> Seq<char> {
        self.0@
    }
}

/// The pieces joined by single spaces; none is put before the first character.
pub open spec fn joined(parts: Seq<Seq<char>>) -> Seq<char>
    decreases parts.len(),
{
    if parts.len() == 0 {
        Seq::empty()
    } else {
        let head = joined(parts.drop_last());
        if head.len() == 0 {
            parts.last()
        } else {
            head + " "@ + parts.last()
        }
    }
}

/// Whether a placeholder starts at the front of `t`.
pub open spec fn at_hole(t: Seq<char>) -> bool {
    t.len() >= 2 && t[0] == '{' && t[1] == '}'
}

/// How many placeholders a template has.
pub open spec fn holes(t: Seq<char>) -> nat
    decreases t.len(),
{
    if t.len() == 0 {
        0
    } else if at_hole(t) {
        1 + holes(t.skip(2))
    } else {
        holes(t.skip(1))
    }
}

/// A template with its placeholders filled in order from `args`. One that has no argument left
/// reads `{?}`.
pub open spec fn filled(t: Seq<char>, args: Seq<Seq<char>>) -> Seq<char>
    decreases t.len(),
{
    if t.len() == 0 {
        Seq::empty()
    } else if at_hole(t) {
        if args.len() > 0 {
            args[0] + filled(t.skip(2), args.skip(1))
        } else {
            "{?}"@ + filled(t.skip(2), args)
        }
    } else {
        seq![t[0]] + filled(t.skip(1), args)
    }
}

/// A filled template, with a note where it had no place for some of the arguments.
pub open spec fn fmt_text(t: Seq<char>, args: Seq<Seq<char>>) -> Seq<char> {
    if holes(t) < args.len() {
        filled(t, args) + " [!template dropped "@ + decimal((args.len() - holes(t)) as nat)
            + " value(s)]"@
    } else {
        filled(t, args)
    }
}

impl OperatorMessage {
    pub fn literal(s: &'static str) -> (r: OperatorMessage)
        ensures
            r@ == s@,
    {
        OperatorMessage(String::from_str(s))
    }

    /// The pieces in order, with a space between them.
    pub fn with(parts: &[Part<'_>]) -> (r: OperatorMessage)
        ensures
            r@ == joined(part_texts(parts@)),
    {
        let mut out = String::new();
        for i in 0..parts.len()
            invariant
                out@ == joined(part_texts(parts@).take(i as int)),
        {
            proof {
                let all = part_texts(parts@);
                assert(all.take(i + 1).drop_last() =~= all.take(i as int));
                assert(all.take(i + 1).last() == all[i as int]);
            }
            if !out.as_str().is_empty() {
                out.append(" ");
            }
            out.append(render(&parts[i]).as_str());
            assert(out@ =~= joined(part_texts(parts@).take(i + 1)));
        }
        assert(part_texts(parts@).take(parts@.len() as int) =~= part_texts(parts@));
        OperatorMessage(out)
    }

    /// Puts `args` into the `{}` placeholders of `template`, in order. A mismatch in number stays
    /// visible in the text.
    pub fn fmt(template: &'static str, args: &[Part<'_>]) -> (r: OperatorMessage)
        ensures
            r@ == fmt_text(template@, part_texts(args@)),
    {
        let t = chars_of(template);
        let ghost all = part_texts(args@);
        let mut out = String::new();
        let mut used: usize = 0;
        let mut i: usize = 0;
        let ghost mut left = all;
        assert(t@.skip(0) =~= t@);
        while i < t.len()
            invariant
                t@ == template@,
                i <= t@.len(),
                used <= i,
                all == part_texts(args@),
                left == if used <= all.len() {
                    all.skip(used as int)
                } else {
                    Seq::empty()
                },
                filled(t@, all) == out@ + filled(t@.skip(i as int), left),
                holes(t@) == used + holes(t@.skip(i as int)),
            decreases t@.len() - i,
        {
            let ghost rest = t@.skip(i as int);
            let ghost before = out@;
            if i + 1 < t.len() && t[i] == '{' && t[i + 1] == '}' {
                assert(at_hole(rest));
                assert(rest.skip(2) =~= t@.skip(i + 2));
                if used < args.len() {
                    out.append(render(&args[used]).as_str());
                    proof {
                        assert(left[0] == all[used as int]);
                        assert(left.skip(1) =~= all.skip(used + 1));
                        assert(filled(rest, left) == left[0] + filled(rest.skip(2), left.skip(1)));
                        assert(before + (left[0] + filled(rest.skip(2), left.skip(1))) =~= out@
                            + filled(rest.skip(2), left.skip(1)));
                        left = left.skip(1);
                    }
                } else {
                    out.append("{?}");
                    proof {
                        assert(left =~= Seq::empty());
                        assert(before + ("{?}"@ + filled(rest.skip(2), left)) =~= out@ + filled(
                            rest.skip(2),
                            left,
                        ));
                        left = Seq::empty();
                    }
                }
                used += 1;
                i += 2;
            } else {
                assert(!at_hole(rest));
                assert(rest.skip(1) =~= t@.skip(i + 1));
                out.push(t[i]);
                proof {
                    assert(before + (seq![rest[0]] + filled(rest.skip(1), left)) =~= out@ + filled(
                        rest.skip(1),
                        left,
                    ));
                }
                i += 1;
            }
        }
        assert(t@.skip(i as int) =~= Seq::<char>::empty());
        assert(out@ + Seq::<char>::empty() =~= out@);
        if used < args.len() {
            out.append(" [!template dropped ");
            out.append(decimal_of((args.len() - used) as u64).as_str());
            out.append(" value(s)]");
        }
        OperatorMessage(out)
    }

    pub fn as_str(&self) -> (r: &str)
        ensures
            r@ == self@,
    {
        self.0.as_str()
    }
}

// ---- Posts ------------------------------------------------------------------------------------

/// The longest post that the channel takes.
pub const DISCORD_MAX: usize = 2000;

/// Room kept for the label: ` (999/999)` fits exactly.
pub const LABEL_RESERVE: usize = 10;

/// Room kept for the mark of a forced cut.
pub const MARKER_RESERVE: usize = 2;

/// Room kept for a label whose two numbers are as long as a number of 64 bits can be.
pub const WIDE_LABEL_RESERVE: usize = 44;

/// How much of a prefix is posted where the whole of it would leave too little room.
pub const LEAD_MAX: usize = 1953;

/// How many characters of the message one post has room for.
pub open spec fn budget_of(prefix_len: nat) -> nat {
    if prefix_len + LABEL_RESERVE + MARKER_RESERVE <= DISCORD_MAX {
        (DISCORD_MAX - prefix_len - LABEL_RESERVE - MARKER_RESERVE) as nat
    } else {
        0
    }
}

/// How many `**` a text has, counted from the left without overlap.
pub open spec fn star_pairs(s: Seq<char>) -> nat
    decreases s.len(),
{
    if s.len() < 2 {
        0
    } else if s[0] == '*' && s[1] == '*' {
        1 + star_pairs(s.skip(2))
    } else {
        star_pairs(s.skip(1))
    }
}

/// Where the first line of a text ends: after its line feed, or at the end of the text.
pub open spec fn line_end(s: Seq<char>) -> int
    decreases s.len(),
{
    if s.len() == 0 {
        0
    } else if s[0] == '\n' {
        1
    } else {
        1 + line_end(s.skip(1))
    }
}

/// A stretch of the message, and whether it was cut off inside a `**` pair.
pub struct Piece {
    pub text: Seq<char>,
    pub marked: bool,
}

impl Piece {
    /// The stretch as it is posted: one cut off inside a `**` pair says so.
    pub open spec fn shown(self) -> Seq<char> {
        if self.marked {
            self.text + " …"@
        } else {
            self.text
        }
    }
}

/// A message that is being cut up: the pieces that are finished, and the one being filled.
pub struct Packing {
    pub done: Seq<Piece>,
    pub cur: Seq<char>,
}

impl Packing {
    pub open spec fn start() -> Packing {
        Packing { done: Seq::empty(), cur: Seq::empty() }
    }

    pub open spec fn flush(self, marked: bool) -> Packing {
        Packing { done: self.done.push(Piece { text: self.cur, marked }), cur: Seq::empty() }
    }

    /// One character more. Where there is no room for it the piece is cut, and marked if that
    /// leaves a `**` open.
    pub open spec fn add_char(self, c: char, budget: nat) -> Packing {
        let p = if self.cur.len() + 1 > budget {
            self.flush(star_pairs(self.cur) % 2 == 1)
        } else {
            self
        };
        Packing { done: p.done, cur: p.cur.push(c) }
    }

    pub open spec fn add_chars(self, s: Seq<char>, budget: nat) -> Packing
        decreases s.len(),
    {
        if s.len() == 0 {
            self
        } else {
            self.add_chars(s.drop_last(), budget).add_char(s.last(), budget)
        }
    }

    /// One line more. It starts a new piece where it does not fit after the current one, and is cut
    /// up only where it fits into no piece at all.
    pub open spec fn add_line(self, line: Seq<char>, budget: nat) -> Packing {
        let p = if self.cur.len() > 0 && self.cur.len() + line.len() > budget {
            self.flush(false)
        } else {
            self
        };
        if line.len() > budget {
            p.add_chars(line, budget)
        } else {
            Packing { done: p.done, cur: p.cur + line }
        }
    }

    pub open spec fn add_lines(self, s: Seq<char>, budget: nat) -> Packing
        decreases s.len(),
    {
        if s.len() == 0 {
            self
        } else {
            let k = line_end(s);
            if 0 < k <= s.len() {
                self.add_line(s.take(k), budget).add_lines(s.skip(k), budget)
            } else {
                self
            }
        }
    }

    /// All pieces, the last one included unless it is blank.
    pub open spec fn pieces(self) -> Seq<Piece> {
        if blank(self.cur) {
            self.done
        } else {
            self.flush(false).done
        }
    }
}

/// A message cut up for posts with room for `budget` characters each.
pub open spec fn pieces(text: Seq<char>, budget: nat) -> Seq<Piece> {
    Packing::start().add_lines(trim(text), budget).pieces()
}

/// The pieces that show something.
pub open spec fn visible(pieces: Seq<Piece>) -> Seq<Piece>
    decreases pieces.len(),
{
    if pieces.len() == 0 {
        Seq::empty()
    } else {
        let head = visible(pieces.drop_last());
        if blank(pieces.last().shown()) {
            head
        } else {
            head.push(pieces.last())
        }
    }
}

/// Post number `i` (from 0) of `n`. The posts are numbered where there is more than one, and no more
/// than 64 bits can count.
pub open spec fn post(prefix: Seq<char>, p: Piece, i: int, n: nat) -> Seq<char> {
    let body = prefix + trim_end(p.shown());
    if 1 < n <= u64::MAX {
        body + " ("@ + decimal((i + 1) as nat) + "/"@ + decimal(n) + ")"@
    } else {
        body
    }
}

/// The posts of a message that is cut up for `budget` characters each.
pub open spec fn packed_posts(prefix: Seq<char>, text: Seq<char>, budget: nat) -> Seq<Seq<char>> {
    let v = visible(pieces(text, budget));
    Seq::new(v.len(), |i: int| post(prefix, v[i], i, v.len()))
}

/// The posts with the whole prefix, and the usual room for the label.
pub open spec fn plain_posts(prefix: Seq<char>, text: Seq<char>) -> Seq<Seq<char>> {
    packed_posts(prefix, text, budget_of(prefix.len()))
}

/// Whether the channel takes every post.
pub open spec fn all_fit(posts: Seq<Seq<char>>) -> bool {
    forall|i: int| 0 <= i < posts.len() ==> (#[trigger] posts[i]).len() <= DISCORD_MAX
}

/// What every post starts with: the prefix, or as much of it as leaves room for the widest label and
/// a character of the message.
pub open spec fn lead(prefix: Seq<char>, text: Seq<char>) -> Seq<char> {
    if all_fit(plain_posts(prefix, text)) || prefix.len() <= LEAD_MAX {
        prefix
    } else {
        prefix.take(LEAD_MAX as int)
    }
}

/// The posts that a message is sent as. Where the prefix is too long, or the posts too many for their
/// labels, the message is cut up anew, with room for both.
pub open spec fn posts(prefix: Seq<char>, text: Seq<char>) -> Seq<Seq<char>> {
    if all_fit(plain_posts(prefix, text)) {
        plain_posts(prefix, text)
    } else {
        let l = lead(prefix, text);
        packed_posts(
            l,
            text,
            (DISCORD_MAX - WIDE_LABEL_RESERVE - MARKER_RESERVE - l.len()) as nat,
        )
    }
}

proof fn line_end_is_inside(s: Seq<char>)
    ensures
        s.len() > 0 ==> 0 < line_end(s) <= s.len(),
        s.len() == 0 ==> line_end(s) == 0,
    decreases s.len(),
{
    if s.len() > 0 && s[0] != '\n' {
        line_end_is_inside(s.skip(1));
    }
}

fn star_pairs_of(v: &Vec<char>) -> (n: usize)
    ensures
        n == star_pairs(v@),
{
    let mut n: usize = 0;
    let mut i: usize = 0;
    assert(v@.skip(0) =~= v@);
    while i < v.len() && v.len() - i >= 2
        invariant
            i <= v@.len(),
            n <= i,
            star_pairs(v@) == n + star_pairs(v@.skip(i as int)),
        decreases v@.len() - i,
    {
        let ghost rest = v@.skip(i as int);
        if v[i] == '*' && v[i + 1] == '*' {
            assert(rest.skip(2) =~= v@.skip(i + 2));
            n += 1;
            i += 2;
        } else {
            assert(rest.skip(1) =~= v@.skip(i + 1));
            i += 1;
        }
    }
    n
}

/// Where the line that starts at `from` ends.
fn line_end_of(v: &Vec<char>, from: usize) -> (k: usize)
    requires
        from < v@.len(),
    ensures
        from < k <= v@.len(),
        k == from + line_end(v@.skip(from as int)),
{
    let mut k: usize = from;
    while k < v.len() && v[k] != '\n'
        invariant
            from <= k <= v@.len(),
            line_end(v@.skip(from as int)) == k - from + line_end(v@.skip(k as int)),
        decreases v@.len() - k,
    {
        assert(v@.skip(k as int).skip(1) =~= v@.skip(k + 1));
        k += 1;
    }
    proof {
        line_end_is_inside(v@.skip(from as int));
    }
    if k < v.len() {
        k + 1
    } else {
        k
    }
}

/// The pieces that have been cut off so far, as they are posted.
spec fn shown(pieces: Seq<Piece>) -> Seq<Seq<char>> {
    Seq::new(pieces.len(), |i: int| pieces[i].shown())
}

spec fn char_views(v: Seq<Vec<char>>) -> Seq<Seq<char>> {
    Seq::new(v.len(), |i: int| v[i]@)
}

fn flush(parts: &mut Vec<Vec<char>>, cur: &mut Vec<char>, marked: bool, p: Ghost<Packing>)
    requires
        char_views(old(parts)@) == shown(p@.done),
        old(cur)@ == p@.cur,
    ensures
        char_views(final(parts)@) == shown(p@.flush(marked).done),
        final(cur)@ == p@.flush(marked).cur,
{
    let mut out: Vec<char> = Vec::new();
    out.append(cur);
    if marked {
        proof {
            reveal_strlit(" …");
        }
        out.push(' ');
        out.push('…');
        assert(out@ =~= p@.cur + " …"@);
    }
    assert(out@ =~= Piece { text: p@.cur, marked }.shown());
    assert(char_views(parts@.push(out)) =~= char_views(parts@).push(out@));
    parts.push(out);
    assert(shown(p@.flush(marked).done) =~= shown(p@.done).push(out@));
    assert(cur@ =~= Seq::empty());
}

/// The pieces that show something, as they are posted, of a message without the white space around
/// it.
fn pack(body: &Vec<char>, budget: usize, text: Ghost<Seq<char>>) -> (kept: Vec<Vec<char>>)
    requires
        body@ == trim(text@),
    ensures
        char_views(kept@) == shown(visible(pieces(text@, budget as nat))),
{
    let ghost b = budget as nat;
    let mut parts: Vec<Vec<char>> = Vec::new();
    let mut cur: Vec<char> = Vec::new();
    let ghost mut p = Packing::start();
    let ghost whole = Packing::start().add_lines(body@, b);
    assert(char_views(parts@) =~= shown(p.done));
    assert(body@.skip(0) =~= body@);
    let mut i: usize = 0;
    while i < body.len()
        invariant
            i <= body@.len(),
            budget == b,
            char_views(parts@) == shown(p.done),
            cur@ == p.cur,
            p.add_lines(body@.skip(i as int), b) == whole,
        decreases body@.len() - i,
    {
        let k: usize = line_end_of(body, i);
        let ghost line = body@.subrange(i as int, k as int);
        let ghost before = p;
        let ghost rest = body@.skip(i as int);
        proof {
            assert(rest.take(k - i) =~= line);
            assert(rest.skip(k - i) =~= body@.skip(k as int));
        }
        if cur.len() > 0 && k - i > budget.saturating_sub(cur.len()) {
            flush(&mut parts, &mut cur, false, Ghost(p));
            proof {
                p = p.flush(false);
            }
        }
        if k - i > budget {
            let ghost from = p;
            assert(from == from.add_chars(body@.subrange(i as int, i as int), b));
            for j in i..k
                invariant
                    i <= k <= body@.len(),
                    budget == b,
                    char_views(parts@) == shown(p.done),
                    cur@ == p.cur,
                    p == from.add_chars(body@.subrange(i as int, j as int), b),
            {
                proof {
                    let s = body@.subrange(i as int, j + 1);
                    assert(s.drop_last() =~= body@.subrange(i as int, j as int));
                    assert(s.last() == body@[j as int]);
                }
                if cur.len() >= budget {
                    let odd: bool = star_pairs_of(&cur) % 2 == 1;
                    flush(&mut parts, &mut cur, odd, Ghost(p));
                    proof {
                        p = p.flush(odd);
                    }
                }
                cur.push(body[j]);
                proof {
                    p = Packing { done: p.done, cur: p.cur.push(body@[j as int]) };
                }
            }
        } else {
            for j in i..k
                invariant
                    i <= k <= body@.len(),
                    line == body@.subrange(i as int, k as int),
                    cur@ == p.cur + body@.subrange(i as int, j as int),
            {
                cur.push(body[j]);
                assert(body@.subrange(i as int, j + 1) =~= body@.subrange(
                    i as int,
                    j as int,
                ).push(body@[j as int]));
                assert(cur@ =~= p.cur + body@.subrange(i as int, j + 1));
            }
            proof {
                p = Packing { done: p.done, cur: p.cur + line };
            }
        }
        assert(p == before.add_line(line, b));
        i = k;
    }
    assert(body@.skip(i as int) =~= Seq::<char>::empty());
    if !is_blank(&cur) {
        flush(&mut parts, &mut cur, false, Ghost(p));
    }
    let ghost all = pieces(text@, b);
    assert(char_views(parts@) == shown(all));
    let mut kept: Vec<Vec<char>> = Vec::new();
    assert(char_views(kept@) =~= shown(visible(all.take(0))));
    for i in 0..parts.len()
        invariant
            char_views(parts@) == shown(all),
            parts@.len() == all.len(),
            char_views(kept@) == shown(visible(all.take(i as int))),
    {
        proof {
            assert(all.take(i + 1).drop_last() =~= all.take(i as int));
            assert(all.take(i + 1).last() == all[i as int]);
            assert(char_views(parts@)[i as int] == shown(all)[i as int]);
        }
        if !is_blank(&parts[i]) {
            let part = parts[i].clone();
            assert(part@ =~= parts@[i as int]@);
            assert(char_views(kept@.push(part)) =~= char_views(kept@).push(part@));
            assert(shown(visible(all.take(i + 1))) =~= shown(visible(all.take(i as int))).push(
                all[i as int].shown(),
            ));
            kept.push(part);
        }
    }
    assert(all.take(all.len() as int) =~= all);
    kept
}

/// The posts that the pieces are sent as.
fn put_together(prefix: &str, kept: &Vec<Vec<char>>, v: Ghost<Seq<Piece>>) -> (out: Vec<String>)
    requires
        char_views(kept@) == shown(v@),
    ensures
        views(out@) == Seq::new(v@.len(), |i: int| post(prefix@, v@[i], i, v@.len())),
{
    assert(kept@.len() == char_views(kept@).len());
    let ghost all = Seq::new(v@.len(), |i: int| post(prefix@, v@[i], i, v@.len()));
    let n: usize = kept.len();
    let mut out: Vec<String> = Vec::new();
    for i in 0..n
        invariant
            n == kept@.len(),
            n == v@.len(),
            char_views(kept@) == shown(v@),
            all == Seq::new(v@.len(), |i: int| post(prefix@, v@[i], i, v@.len())),
            views(out@) =~= all.take(i as int),
    {
        assert(char_views(kept@)[i as int] == shown(v@)[i as int]);
        let m: usize = trim_end_len(&kept[i]);
        let mut one = String::from_str(prefix);
        let tail = text_of(&kept[i], 0, m);
        assert(tail@ =~= kept@[i as int]@.take(m as int));
        one.append(tail.as_str());
        if n > 1 {
            one.append(" (");
            one.append(decimal_of(i as u64 + 1).as_str());
            one.append("/");
            one.append(decimal_of(n as u64).as_str());
            one.append(")");
        }
        assert(one@ == post(prefix@, v@[i as int], i as int, n as nat));
        assert(views(out@.push(one)) =~= views(out@).push(one@));
        assert(all.take(i + 1) =~= all.take(i as int).push(one@));
        out.push(one);
    }
    assert(views(out@) =~= all);
    out
}

/// Whether the channel takes every post.
fn do_fit(posts: &Vec<String>) -> (r: bool)
    ensures
        r == all_fit(views(posts@)),
{
    for i in 0..posts.len()
        invariant
            forall|j: int| 0 <= j < i ==> (#[trigger] views(posts@)[j]).len() <= DISCORD_MAX,
    {
        assert(views(posts@)[i as int] == posts@[i as int]@);
        if posts[i].as_str().unicode_len() > DISCORD_MAX {
            return false;
        }
    }
    true
}

impl OperatorMessage {
    /// Splits the message into posts of at most 2000 characters, prefix and label included.
    ///
    /// The bound comes first, and before the whole of the prefix. Then no post is empty. Then no line
    /// is cut that fits into a post; where one must be, and the cut falls inside a `**` pair, the
    /// post says so with ` …`.
    pub fn chunks(&self, prefix: &str) -> (r: Vec<String>)
        ensures
            views(r@) == posts(prefix@, self@),
            forall|i: int| 0 <= i < r@.len() ==> (#[trigger] r@[i])@.len() <= DISCORD_MAX,
    {
        proof {
            posts_are_bounded(prefix@, self@);
        }
        let body = trimmed(self.0.as_str());
        let taken: usize = prefix.unicode_len();
        let budget: usize = if taken <= DISCORD_MAX - LABEL_RESERVE - MARKER_RESERVE {
            DISCORD_MAX - LABEL_RESERVE - MARKER_RESERVE - taken
        } else {
            0
        };
        let kept = pack(&body, budget, Ghost(self@));
        let plain = put_together(prefix, &kept, Ghost(visible(pieces(self@, budget as nat))));
        assert(views(plain@) =~= plain_posts(prefix@, self@));
        let r = if do_fit(&plain) {
            plain
        } else {
            let start = if taken <= LEAD_MAX {
                String::from_str(prefix)
            } else {
                let chars = chars_of(prefix);
                let cut = text_of(&chars, 0, LEAD_MAX);
                assert(cut@ =~= prefix@.take(LEAD_MAX as int));
                cut
            };
            assert(start@ == lead(prefix@, self@));
            let room: usize = DISCORD_MAX - WIDE_LABEL_RESERVE - MARKER_RESERVE
                - start.as_str().unicode_len();
            let kept = pack(&body, room, Ghost(self@));
            put_together(start.as_str(), &kept, Ghost(visible(pieces(self@, room as nat))))
        };
        assert(views(r@) =~= posts(prefix@, self@));
        assert forall|i: int| 0 <= i < r@.len() implies (#[trigger] r@[i])@.len() <= DISCORD_MAX by {
            assert(views(r@)[i] == r@[i]@);
        }
        r
    }
}

// ---- What holds of every split ----------------------------------------------------------------

/// The stretches put together again.
pub open spec fn rejoined(pieces: Seq<Piece>) -> Seq<char>
    decreases pieces.len(),
{
    if pieces.len() == 0 {
        Seq::empty()
    } else {
        rejoined(pieces.drop_last()) + pieces.last().text
    }
}

impl Packing {
    /// Everything that has been put in, in order.
    spec fn content(self) -> Seq<char> {
        rejoined(self.done) + self.cur
    }

    /// No piece is longer than it may be, and a mark stands only where a `**` is open.
    spec fn fits(self, budget: nat) -> bool {
        &&& self.cur.len() <= budget
        &&& forall|i: int| 0 <= i < self.done.len() ==> (#[trigger] self.done[i]).text.len() <= budget
    }

    spec fn marks_are_due(self) -> bool {
        forall|i: int|
            0 <= i < self.done.len() && (#[trigger] self.done[i]).marked ==> star_pairs(
                self.done[i].text,
            ) % 2 == 1
    }

    proof fn flush_keeps(self, marked: bool, budget: nat)
        ensures
            self.flush(marked).content() == self.content(),
            self.fits(budget) ==> self.flush(marked).fits(budget),
            self.marks_are_due() && (marked ==> star_pairs(self.cur) % 2 == 1) ==> self.flush(
                marked,
            ).marks_are_due(),
    {
        let q = self.flush(marked);
        assert(q.done.drop_last() =~= self.done);
        assert(q.content() =~= self.content());
    }

    proof fn add_chars_keeps(self, s: Seq<char>, budget: nat)
        ensures
            self.add_chars(s, budget).content() == self.content() + s,
            budget >= 1 && self.fits(budget) ==> self.add_chars(s, budget).fits(budget),
            self.marks_are_due() ==> self.add_chars(s, budget).marks_are_due(),
            s.len() > 0 ==> self.add_chars(s, budget).cur.len() > 0,
        decreases s.len(),
    {
        if s.len() == 0 {
            assert(self.content() + s =~= self.content());
        } else {
            self.add_chars_keeps(s.drop_last(), budget);
            let p = self.add_chars(s.drop_last(), budget);
            let odd = star_pairs(p.cur) % 2 == 1;
            p.flush_keeps(odd, budget);
            let q = if p.cur.len() + 1 > budget {
                p.flush(odd)
            } else {
                p
            };
            let r = Packing { done: q.done, cur: q.cur.push(s.last()) };
            assert(r == self.add_chars(s, budget));
            assert(r.content() =~= q.content().push(s.last()));
            assert(self.content() + s =~= (self.content() + s.drop_last()).push(s.last()));
        }
    }

    proof fn add_line_keeps(self, line: Seq<char>, budget: nat)
        ensures
            self.add_line(line, budget).content() == self.content() + line,
            budget >= 1 && self.fits(budget) ==> self.add_line(line, budget).fits(budget),
            self.marks_are_due() ==> self.add_line(line, budget).marks_are_due(),
            line.len() > 0 ==> self.add_line(line, budget).cur.len() > 0,
    {
        self.flush_keeps(false, budget);
        let p = if self.cur.len() > 0 && self.cur.len() + line.len() > budget {
            self.flush(false)
        } else {
            self
        };
        p.add_chars_keeps(line, budget);
        assert(Packing { done: p.done, cur: p.cur + line }.content() =~= p.content() + line);
    }

    proof fn add_lines_keeps(self, s: Seq<char>, budget: nat)
        ensures
            self.add_lines(s, budget).content() == self.content() + s,
            budget >= 1 && self.fits(budget) ==> self.add_lines(s, budget).fits(budget),
            self.marks_are_due() ==> self.add_lines(s, budget).marks_are_due(),
            s.len() > 0 ==> self.add_lines(s, budget).cur.len() > 0,
        decreases s.len(),
    {
        if s.len() == 0 {
            assert(self.content() + s =~= self.content());
        } else {
            line_end_is_inside(s);
            let k = line_end(s);
            self.add_line_keeps(s.take(k), budget);
            self.add_line(s.take(k), budget).add_lines_keeps(s.skip(k), budget);
            assert(self.content() + s =~= self.content() + s.take(k) + s.skip(k));
        }
    }
}

/// Splitting loses nothing and invents nothing: the stretches of a message, put together, are the
/// message without the white space around it. None is longer than the room for it, and one is
/// marked as cut only where a `**` is left open in it.
pub proof fn pieces_rejoin_to_the_message(text: Seq<char>, budget: nat)
    ensures
        rejoined(pieces(text, budget)) == trim(text),
        forall|i: int|
            0 <= i < pieces(text, budget).len() ==> {
                let p = #[trigger] pieces(text, budget)[i];
                &&& budget >= 1 ==> p.text.len() <= budget
                &&& p.marked ==> star_pairs(p.text) % 2 == 1
            },
{
    let p = Packing::start().add_lines(trim(text), budget);
    Packing::start().add_lines_keeps(trim(text), budget);
    assert(Packing::start().content() =~= Seq::empty());
    assert(p.content() =~= trim(text));
    p.flush_keeps(false, budget);
    trim_end_is_tight(crate::text::trim_start(text));
    if blank(p.cur) {
        if p.cur.len() > 0 {
            assert(trim(text).last() == p.cur.last());
            assert(is_space(p.cur[p.cur.len() - 1]));
        }
        assert(p.content() =~= rejoined(p.done));
    } else {
        let q = p.flush(false);
        assert(q.content() =~= rejoined(q.done));
    }
}

/// The pieces that are posted are those that show something, in their order.
pub proof fn only_blank_pieces_are_left_out(pieces: Seq<Piece>)
    ensures
        forall|i: int|
            0 <= i < visible(pieces).len() ==> !blank((#[trigger] visible(pieces)[i]).shown())
                && pieces.contains(visible(pieces)[i]),
        forall|i: int|
            0 <= i < pieces.len() && !blank((#[trigger] pieces[i]).shown()) ==> visible(
                pieces,
            ).contains(pieces[i]),
        visible(pieces).len() <= pieces.len(),
    decreases pieces.len(),
{
    if pieces.len() > 0 {
        let front = pieces.drop_last();
        let head = visible(front);
        let all = visible(pieces);
        only_blank_pieces_are_left_out(front);
        assert forall|i: int| 0 <= i < all.len() implies !blank((#[trigger] all[i]).shown())
            && pieces.contains(all[i]) by {
            if i < head.len() {
                assert(all[i] == head[i]);
                let j = choose|j: int| 0 <= j < front.len() && front[j] == head[i];
                assert(pieces[j] == head[i]);
            } else {
                assert(pieces[pieces.len() - 1] == all[i]);
            }
        }
        assert forall|i: int| 0 <= i < pieces.len() && !blank((#[trigger] pieces[i]).shown()) implies
            all.contains(pieces[i]) by {
            if i < front.len() {
                assert(front[i] == pieces[i]);
                let j = choose|j: int| 0 <= j < head.len() && head[j] == pieces[i];
                assert(all[j] == pieces[i]);
            } else {
                assert(all[all.len() - 1] == pieces[i]);
            }
        }
    }
}

/// Every post starts with the prefix, or with as much of it as there is room for, and says something
/// after that.
pub proof fn no_post_is_empty(prefix: Seq<char>, text: Seq<char>)
    ensures
        lead(prefix, text).is_prefix_of(prefix),
        lead(prefix, text) == prefix || lead(prefix, text).len() == LEAD_MAX,
        forall|i: int|
            0 <= i < posts(prefix, text).len() ==> {
                let p = #[trigger] posts(prefix, text)[i];
                &&& p.len() > lead(prefix, text).len()
                &&& lead(prefix, text).is_prefix_of(p)
            },
{
    let l = lead(prefix, text);
    assert(l =~= prefix.take(l.len() as int));
    let budget = if all_fit(plain_posts(prefix, text)) {
        budget_of(prefix.len())
    } else {
        (DISCORD_MAX - WIDE_LABEL_RESERVE - MARKER_RESERVE - l.len()) as nat
    };
    let all = pieces(text, budget);
    let v = visible(all);
    assert(posts(prefix, text) == packed_posts(l, text, budget));
    only_blank_pieces_are_left_out(all);
    assert forall|i: int| 0 <= i < posts(prefix, text).len() implies {
        let p = #[trigger] posts(prefix, text)[i];
        p.len() > l.len() && l.is_prefix_of(p)
    } by {
        assert(!blank(v[i].shown()));
        trim_of_blank(v[i].shown());
        let p = posts(prefix, text)[i];
        assert(p.take(l.len() as int) =~= l);
    }
}

/// A message with nothing to say is not posted.
pub proof fn blank_message_is_not_posted(prefix: Seq<char>, text: Seq<char>)
    requires
        blank(text),
    ensures
        posts(prefix, text).len() == 0,
{
    trim_of_blank(text);
    assert(Packing::start().add_lines(trim(text), budget_of(prefix.len())) == Packing::start());
    assert(pieces(text, budget_of(prefix.len())) =~= Seq::empty());
}

/// Where a label takes no more than `label` characters, no post of a message that was cut up with room
/// for it is too long.
proof fn packed_posts_fit(prefix: Seq<char>, text: Seq<char>, label: nat)
    requires
        prefix.len() + label + MARKER_RESERVE < DISCORD_MAX,
        ({
            let n = visible(
                pieces(text, (DISCORD_MAX - label - MARKER_RESERVE - prefix.len()) as nat),
            ).len();
            forall|i: int|
                0 <= i < n && n <= u64::MAX ==> #[trigger] decimal((i + 1) as nat).len() + decimal(
                    n,
                ).len() + 4 <= label
        }),
    ensures
        all_fit(
            packed_posts(
                prefix,
                text,
                (DISCORD_MAX - label - MARKER_RESERVE - prefix.len()) as nat,
            ),
        ),
{
    let budget = (DISCORD_MAX - label - MARKER_RESERVE - prefix.len()) as nat;
    let all = pieces(text, budget);
    let v = visible(all);
    pieces_rejoin_to_the_message(text, budget);
    only_blank_pieces_are_left_out(all);
    assert forall|i: int| 0 <= i < v.len() implies (#[trigger] packed_posts(
        prefix,
        text,
        budget,
    )[i]).len() <= DISCORD_MAX by {
        let j = choose|j: int| 0 <= j < all.len() && all[j] == v[i];
        assert(all[j].text.len() <= budget);
        reveal_strlit(" …");
        reveal_strlit(" (");
        reveal_strlit("/");
        reveal_strlit(")");
        trim_end_is_tight(v[i].shown());
        if 1 < v.len() <= u64::MAX {
            assert(decimal((i + 1) as nat).len() + decimal(v.len()).len() + 4 <= label);
        }
    }
}

/// No post is longer than the channel takes, prefix and label included.
pub proof fn posts_are_bounded(prefix: Seq<char>, text: Seq<char>)
    ensures
        forall|i: int|
            0 <= i < posts(prefix, text).len() ==> (#[trigger] posts(prefix, text)[i]).len()
                <= DISCORD_MAX,
{
    if !all_fit(plain_posts(prefix, text)) {
        let l = lead(prefix, text);
        let n = visible(
            pieces(text, (DISCORD_MAX - WIDE_LABEL_RESERVE - MARKER_RESERVE - l.len()) as nat),
        ).len();
        assert forall|i: int| 0 <= i < n && n <= u64::MAX implies #[trigger] decimal(
            (i + 1) as nat,
        ).len() + decimal(n).len() + 4 <= WIDE_LABEL_RESERVE by {
            decimal_of_a_word((i + 1) as nat);
            decimal_of_a_word(n);
        }
        packed_posts_fit(l, text, WIDE_LABEL_RESERVE as nat);
    }
}

/// A prefix that leaves room for a label and a character is posted whole, as long as the posts number
/// less than a thousand.
pub proof fn a_short_prefix_is_posted_whole(prefix: Seq<char>, text: Seq<char>)
    requires
        prefix.len() + LABEL_RESERVE + MARKER_RESERVE < DISCORD_MAX,
        plain_posts(prefix, text).len() < 1000,
    ensures
        posts(prefix, text) == plain_posts(prefix, text),
        lead(prefix, text) == prefix,
{
    let n = visible(pieces(text, budget_of(prefix.len()))).len();
    assert forall|i: int| 0 <= i < n && n <= u64::MAX implies #[trigger] decimal(
        (i + 1) as nat,
    ).len() + decimal(n).len() + 4 <= LABEL_RESERVE by {
        decimal_below_thousand((i + 1) as nat);
        decimal_below_thousand(n);
    }
    packed_posts_fit(prefix, text, LABEL_RESERVE as nat);
}

} // verus!
