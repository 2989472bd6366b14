//! The template engine.
//!
//! A template is markup text with variable slots written `{{ name }}`.
//! Parsing splits the text into literal and variable segments; rendering
//! substitutes each variable with its value from a [`TemplateContext`],
//! escaping the value so that arbitrary text cannot corrupt the markup
//! structure around the slot.

use vstd::prelude::*;
use crate::bytes::{chars_to_bytes, str_bytes};

verus! {

/// Why rendering or parsing a template failed.
#[derive(Debug, PartialEq, Eq, Structural, Clone, Copy)]
pub enum TemplateError {
    /// A variable slot is not well formed (`{{` without a matching
    /// `}}`, or an empty or ill-formed variable name).
    Malformed,
    /// A variable slot names a variable the context does not bind.
    UnknownVariable,
}

/// One piece of a parsed template: literal bytes, or a variable slot.
pub enum Segment {
    Lit(Vec<u8>),
    Var(Vec<u8>),
}

/// The mathematical model of a segment.
pub enum Seg {
    Lit(Seq<u8>),
    Var(Seq<u8>),
}

/// The model of one executable segment.
pub open spec fn seg_model(s: Segment) -> Seg {
    match s {
        Segment::Lit(b) => Seg::Lit(b@),
        Segment::Var(n) => Seg::Var(n@),
    }
}

/// The model of a segment list.
pub open spec fn segs_model(s: Seq<Segment>) -> Seq<Seg> {
    s.map_values(|x: Segment| seg_model(x))
}

/// A parsed template.
pub struct Template {
    pub segments: Vec<Segment>,
}

/// Bindings from variable names to values.
pub struct TemplateContext {
    pub entries: Vec<(Vec<u8>, Vec<u8>)>,
}

/// The model of a context: name/value pairs in binding order.
pub open spec fn ctx_model(entries: Seq<(Vec<u8>, Vec<u8>)>) -> Seq<(Seq<u8>, Seq<u8>)> {
    entries.map_values(|p: (Vec<u8>, Vec<u8>)| (p.0@, p.1@))
}

/// The value bound to `name`, searching bindings in order.
pub open spec fn lookup_spec(ctx: Seq<(Seq<u8>, Seq<u8>)>, name: Seq<u8>) -> Option<Seq<u8>>
    decreases ctx.len(),
{
    if ctx.len() == 0 {
        None
    } else if ctx[0].0 == name {
        Some(ctx[0].1)
    } else {
        lookup_spec(ctx.drop_first(), name)
    }
}

/// How one byte is written inside markup text: the five characters with
/// structural meaning become entity references, all others stand as
/// themselves.
pub open spec fn escape_byte(b: u8) -> Seq<u8> {
    if b == 38 {  // &
        chars_to_bytes("&amp;"@)
    } else if b == 60 {  // <
        chars_to_bytes("&lt;"@)
    } else if b == 62 {  // >
        chars_to_bytes("&gt;"@)
    } else if b == 34 {  // "
        chars_to_bytes("&quot;"@)
    } else if b == 39 {  // '
        chars_to_bytes("&apos;"@)
    } else {
        seq![b]
    }
}

/// The escaped form of a byte string.
pub open spec fn escape_bytes(s: Seq<u8>) -> Seq<u8>
    decreases s.len(),
{
    if s.len() == 0 {
        Seq::empty()
    } else {
        escape_byte(s[0]) + escape_bytes(s.drop_first())
    }
}

/// True for bytes that need no escaping.
pub open spec fn plain_byte(b: u8) -> bool {
    b != 38 && b != 60 && b != 62 && b != 34 && b != 39
}

/// The rendered document for a segment list under a context: literals
/// stand as themselves, variables as the escaped bound value. `None`
/// when some variable is unbound.
pub open spec fn render_segs(segs: Seq<Seg>, ctx: Seq<(Seq<u8>, Seq<u8>)>) -> Option<Seq<u8>>
    decreases segs.len(),
{
    if segs.len() == 0 {
        Some(Seq::empty())
    } else {
        match render_segs(segs.drop_first(), ctx) {
            None => None,
            Some(tail) => match segs[0] {
                Seg::Lit(b) => Some(b + tail),
                Seg::Var(n) => match lookup_spec(ctx, n) {
                    None => None,
                    Some(v) => Some(escape_bytes(v) + tail),
                },
            },
        }
    }
}

/// A segment list of literal text: one literal segment per byte.
pub open spec fn lits(b: Seq<u8>) -> Seq<Seg> {
    b.map_values(|x: u8| Seg::Lit(seq![x]))
}

/// Rendering literal text before a segment list prepends that text.
proof fn lemma_render_lits(b: Seq<u8>, rest: Seq<Seg>, ctx: Seq<(Seq<u8>, Seq<u8>)>)
    ensures
        render_segs(lits(b) + rest, ctx) == (match render_segs(rest, ctx) {
            None => None::<Seq<u8>>,
            Some(t) => Some(b + t),
        }),
    decreases b.len(),
{
    if b.len() == 0 {
        assert(lits(b) + rest =~= rest);
        match render_segs(rest, ctx) {
            None => {},
            Some(t) => {
                assert(b + t =~= t);
            },
        }
    } else {
        assert((lits(b) + rest).drop_first() =~= lits(b.drop_first()) + rest);
        assert((lits(b) + rest)[0] == Seg::Lit(seq![b[0]]));
        lemma_render_lits(b.drop_first(), rest, ctx);
        match render_segs(rest, ctx) {
            None => {},
            Some(t) => {
                assert(seq![b[0]] + (b.drop_first() + t) =~= b + t);
            },
        }
    }
}

/// The substitution law: a template of literal text around one variable
/// slot renders, under the context that binds that variable, to exactly
/// the surrounding text with the escaped value substituted once. The
/// surrounding text is the same whatever the value; a value of plain
/// bytes stands verbatim (see [`lemma_escape_plain`]).
pub proof fn lemma_substitution_exact(pre: Seq<u8>, name: Seq<u8>, post: Seq<u8>, value: Seq<u8>)
    ensures
        render_segs(lits(pre) + seq![Seg::Var(name)] + lits(post), seq![(name, value)]) == Some(
            pre + escape_bytes(value) + post,
        ),
{
    let ctx = seq![(name, value)];
    let tail = seq![Seg::Var(name)] + lits(post);
    assert(lookup_spec(ctx, name) == Some(value));
    lemma_render_lits(post, Seq::empty(), ctx);
    assert(lits(post) + Seq::<Seg>::empty() =~= lits(post));
    assert(render_segs(lits(post), ctx) == Some(post + Seq::<u8>::empty()));
    assert(tail.drop_first() =~= lits(post));
    assert(tail[0] == Seg::Var(name));
    assert(render_segs(tail, ctx) == Some(escape_bytes(value) + (post + Seq::<u8>::empty())));
    lemma_render_lits(pre, tail, ctx);
    assert(lits(pre) + seq![Seg::Var(name)] + lits(post) =~= lits(pre) + tail);
    assert(pre + (escape_bytes(value) + (post + Seq::<u8>::empty())) =~= pre + escape_bytes(value)
        + post);
}

/// Escaping changes nothing on text free of the five structural bytes:
/// such a value is substituted verbatim.
pub proof fn lemma_escape_plain(t: Seq<u8>)
    requires
        forall|i: int| 0 <= i < t.len() ==> plain_byte(#[trigger] t[i]),
    ensures
        escape_bytes(t) == t,
    decreases t.len(),
{
    if t.len() == 0 {
        assert(escape_bytes(t) =~= t);
    } else {
        lemma_escape_plain(t.drop_first());
        assert(seq![t[0]] + t.drop_first() =~= t);
    }
}

/// A variable-name byte: a letter, a digit or an underscore.
pub open spec fn ident_byte(b: u8) -> bool {
    (97 <= b <= 122) || (65 <= b <= 90) || (48 <= b <= 57) || b == 95
}

/// True when `{{` stands at `i`.
pub open spec fn open_at(s: Seq<u8>, i: int) -> bool {
    i + 2 <= s.len() && s[i] == 123 && s[i + 1] == 123
}

/// True when `}}` stands at `i`.
pub open spec fn close_at(s: Seq<u8>, i: int) -> bool {
    i + 2 <= s.len() && s[i] == 125 && s[i + 1] == 125
}

/// The first position at or after `j` that does not hold a space.
pub open spec fn skip_spaces(s: Seq<u8>, j: int) -> int
    decreases s.len() - j,
{
    if j < 0 || j >= s.len() {
        j
    } else if s[j] == 32 {
        skip_spaces(s, j + 1)
    } else {
        j
    }
}

/// The first position at or after `j` that does not hold an identifier byte.
pub open spec fn ident_end(s: Seq<u8>, j: int) -> int
    decreases s.len() - j,
{
    if j < 0 || j >= s.len() {
        j
    } else if ident_byte(s[j]) {
        ident_end(s, j + 1)
    } else {
        j
    }
}

pub proof fn lemma_skip_spaces_bounds(s: Seq<u8>, j: int)
    requires
        0 <= j <= s.len(),
    ensures
        j <= skip_spaces(s, j) <= s.len(),
    decreases s.len() - j,
{
    if j < s.len() && s[j] == 32 {
        lemma_skip_spaces_bounds(s, j + 1);
    }
}

pub proof fn lemma_ident_end_bounds(s: Seq<u8>, j: int)
    requires
        0 <= j <= s.len(),
    ensures
        j <= ident_end(s, j) <= s.len(),
    decreases s.len() - j,
{
    if j < s.len() && ident_byte(s[j]) {
        lemma_ident_end_bounds(s, j + 1);
    }
}

/// The segments of the template text from position `i` on. `None` when a
/// `{{` is not followed by a well-formed variable slot.
pub open spec fn parse_from(s: Seq<u8>, i: int) -> Option<Seq<Seg>>
    decreases s.len() - i,
    when 0 <= i <= s.len()
    via parse_from_decreases
{
    if i >= s.len() {
        Some(Seq::empty())
    } else if open_at(s, i) {
        let a = skip_spaces(s, i + 2);
        let b = ident_end(s, a);
        let c = skip_spaces(s, b);
        if b > a && close_at(s, c) {
            match parse_from(s, c + 2) {
                None => None,
                Some(rest) => Some(seq![Seg::Var(s.subrange(a, b))] + rest),
            }
        } else {
            None
        }
    } else {
        match parse_from(s, i + 1) {
            None => None,
            Some(rest) => Some(seq![Seg::Lit(seq![s[i]])] + rest),
        }
    }
}

#[via_fn]
proof fn parse_from_decreases(s: Seq<u8>, i: int) {
    if 0 <= i < s.len() && open_at(s, i) {
        lemma_skip_spaces_bounds(s, i + 2);
        lemma_ident_end_bounds(s, skip_spaces(s, i + 2));
        lemma_skip_spaces_bounds(s, ident_end(s, skip_spaces(s, i + 2)));
    }
}

/// The text of one variable slot: `{{ name }}`.
pub open spec fn slot(name: Seq<u8>) -> Seq<u8> {
    seq![123u8, 123u8, 32u8] + name + seq![32u8, 125u8, 125u8]
}

/// Within a run of identifier bytes, the identifier ends where the run
/// ends.
proof fn lemma_ident_end_region(s: Seq<u8>, j: int, k: int)
    requires
        0 <= j <= k <= s.len(),
        forall|i: int| j <= i < k ==> ident_byte(#[trigger] s[i]),
        k == s.len() || !ident_byte(s[k]),
    ensures
        ident_end(s, j) == k,
    decreases k - j,
{
    if j < k {
        lemma_ident_end_region(s, j + 1, k);
    }
}

/// A region without opening braces parses to its own bytes as literal
/// segments, followed by whatever the rest parses to.
proof fn lemma_parse_lit_region(s: Seq<u8>, i: int, k: int)
    requires
        0 <= i <= k <= s.len(),
        forall|t: int| i <= t < k ==> s[t] != 123,
        parse_from(s, k) is Some,
    ensures
        parse_from(s, i) matches Some(segs) && parse_from(s, k) matches Some(rest) && segs == lits(
            s.subrange(i, k),
        ) + rest,
    decreases k - i,
{
    if i == k {
        assert(lits(s.subrange(i, k)) + parse_from(s, k).unwrap() =~= parse_from(s, k).unwrap());
    } else {
        assert(!open_at(s, i));
        lemma_parse_lit_region(s, i + 1, k);
        let rest = parse_from(s, k).unwrap();
        assert(seq![Seg::Lit(seq![s[i]])] + (lits(s.subrange(i + 1, k)) + rest) =~= lits(
            s.subrange(i, k),
        ) + rest);
    }
}

/// A template text of literal bytes around one well-formed variable
/// slot parses to exactly those literal segments around one variable
/// segment: the slot is recognized once, and nothing else is one.
pub proof fn lemma_parse_single_slot(pre: Seq<u8>, name: Seq<u8>, post: Seq<u8>)
    requires
        forall|i: int| 0 <= i < pre.len() ==> pre[i] != 123,
        forall|i: int| 0 <= i < post.len() ==> post[i] != 123,
        name.len() > 0,
        forall|i: int| 0 <= i < name.len() ==> ident_byte(#[trigger] name[i]),
    ensures
        parse_from(pre + slot(name) + post, 0) == Some(
            lits(pre) + seq![Seg::Var(name)] + lits(post),
        ),
{
    let s = pre + slot(name) + post;
    let lp = pre.len() as int;
    let ls = slot(name).len() as int;
    let k = lp + ls;
    assert(s.len() == lp + ls + post.len());
    assert forall|t: int| 0 <= t < lp implies s[t] != 123 by {
        assert(s[t] == pre[t]);
    }
    assert forall|t: int| k <= t < s.len() implies s[t] != 123 by {
        assert(s[t] == post[t - k]);
    }
    assert forall|t: int| 0 <= t < ls implies s[lp + t] == slot(name)[t] by {}
    // The tail after the slot is literal text.
    assert(parse_from(s, s.len() as int) == Some(Seq::<Seg>::empty()));
    lemma_parse_lit_region(s, k, s.len() as int);
    let tail = parse_from(s, k).unwrap();
    assert(s.subrange(k, s.len() as int) =~= post);
    assert(tail == lits(post) + Seq::<Seg>::empty());
    assert(tail =~= lits(post));
    // The slot itself parses as one variable segment.
    assert(s[lp] == 123 && s[lp + 1] == 123);
    assert(open_at(s, lp));
    assert(s[lp + 2] == 32);
    assert(s[lp + 3] == name[0]);
    assert(ident_byte(name[0]) && name[0] != 32);
    assert(skip_spaces(s, lp + 3) == lp + 3);
    assert(skip_spaces(s, lp + 2) == lp + 3);
    let a = lp + 3;
    let b = a + name.len() as int;
    assert forall|t: int| a <= t < b implies ident_byte(#[trigger] s[t]) by {
        assert(s[t] == name[t - a]);
    }
    assert(s[b] == 32 && !ident_byte(s[b]));
    lemma_ident_end_region(s, a, b);
    assert(ident_end(s, a) == b);
    assert(s[b + 1] == 125 && s[b + 2] == 125);
    assert(skip_spaces(s, b + 1) == b + 1);
    assert(skip_spaces(s, b) == b + 1);
    assert(close_at(s, b + 1));
    assert(b + 3 == k);
    assert(s.subrange(a, b) =~= name);
    assert(parse_from(s, lp) == Some(seq![Seg::Var(name)] + tail));
    // The text before the slot is literal.
    lemma_parse_lit_region(s, 0, lp);
    assert(s.subrange(0, lp) =~= pre);
    assert(lits(pre) + (seq![Seg::Var(name)] + lits(post)) =~= lits(pre) + seq![Seg::Var(name)]
        + lits(post));
}

/// The substitution law over template text: a template of literal
/// bytes around one variable slot renders, under the context that
/// binds that variable, to exactly the surrounding text with the
/// escaped value substituted once. The surrounding text does not
/// depend on the value.
pub proof fn lemma_template_text_substitution(
    pre: Seq<u8>,
    name: Seq<u8>,
    post: Seq<u8>,
    value: Seq<u8>,
)
    requires
        forall|i: int| 0 <= i < pre.len() ==> pre[i] != 123,
        forall|i: int| 0 <= i < post.len() ==> post[i] != 123,
        name.len() > 0,
        forall|i: int| 0 <= i < name.len() ==> ident_byte(#[trigger] name[i]),
    ensures
        parse_from(pre + slot(name) + post, 0) matches Some(segs) && render_segs(
            segs,
            seq![(name, value)],
        ) == Some(pre + escape_bytes(value) + post),
{
    lemma_parse_single_slot(pre, name, post);
    lemma_substitution_exact(pre, name, post, value);
}

fn skip_spaces_exec(s: &[u8], j: usize) -> (r: usize)
    requires
        j <= s@.len(),
    ensures
        r == skip_spaces(s@, j as int),
        j <= r <= s@.len(),
    decreases s@.len() - j,
{
    if j < s.len() && s[j] == 32 {
        skip_spaces_exec(s, j + 1)
    } else {
        j
    }
}

fn ident_end_exec(s: &[u8], j: usize) -> (r: usize)
    requires
        j <= s@.len(),
    ensures
        r == ident_end(s@, j as int),
        j <= r <= s@.len(),
    decreases s@.len() - j,
{
    if j < s.len() {
        let b = s[j];
        if (97 <= b && b <= 122) || (65 <= b && b <= 90) || (48 <= b && b <= 57) || b == 95 {
            return ident_end_exec(s, j + 1);
        }
    }
    j
}

fn parse_segments(s: &[u8], i: usize) -> (r: Option<Vec<Segment>>)
    requires
        i <= s@.len(),
    ensures
        (r is Some) == (parse_from(s@, i as int) is Some),
        r matches Some(v) ==> parse_from(s@, i as int) == Some(segs_model(v@)),
    decreases s@.len() - i,
{
    if i >= s.len() {
        let v: Vec<Segment> = Vec::new();
        proof {
            assert(segs_model(v@) =~= Seq::<Seg>::empty());
        }
        return Some(v);
    }
    if i + 1 < s.len() && s[i] == 123 && s[i + 1] == 123 {
        let a = skip_spaces_exec(s, i + 2);
        let b = ident_end_exec(s, a);
        let c = skip_spaces_exec(s, b);
        if b > a && c < s.len() && c + 1 < s.len() && s[c] == 125 && s[c + 1] == 125 {
            match parse_segments(s, c + 2) {
                None => None,
                Some(mut rest) => {
                    let ghost rest0 = rest@;
                    let name = vstd::slice::slice_to_vec(vstd::slice::slice_subrange(s, a, b));
                    let mut v: Vec<Segment> = Vec::new();
                    v.push(Segment::Var(name));
                    v.append(&mut rest);
                    proof {
                        assert(segs_model(v@) =~= seq![Seg::Var(s@.subrange(a as int, b as int))]
                            + segs_model(rest0));
                    }
                    Some(v)
                },
            }
        } else {
            None
        }
    } else {
        proof {
            assert(!open_at(s@, i as int));
        }
        match parse_segments(s, i + 1) {
            None => None,
            Some(mut rest) => {
                let ghost rest0 = rest@;
                let mut lit: Vec<u8> = Vec::new();
                lit.push(s[i]);
                let mut v: Vec<Segment> = Vec::new();
                v.push(Segment::Lit(lit));
                v.append(&mut rest);
                proof {
                    assert(segs_model(v@) =~= seq![Seg::Lit(seq![s@[i as int]])] + segs_model(
                        rest0,
                    ));
                }
                Some(v)
            },
        }
    }
}

/// The bytes that stand for one byte of a substituted value.
fn escape_one(b: u8) -> (out: Vec<u8>)
    ensures
        out@ == escape_byte(b),
{
    if b == 38 {
        proof {
            reveal_strlit("&amp;");
        }
        str_bytes("&amp;")
    } else if b == 60 {
        proof {
            reveal_strlit("&lt;");
        }
        str_bytes("&lt;")
    } else if b == 62 {
        proof {
            reveal_strlit("&gt;");
        }
        str_bytes("&gt;")
    } else if b == 34 {
        proof {
            reveal_strlit("&quot;");
        }
        str_bytes("&quot;")
    } else if b == 39 {
        proof {
            reveal_strlit("&apos;");
        }
        str_bytes("&apos;")
    } else {
        let mut v: Vec<u8> = Vec::new();
        v.push(b);
        proof {
            assert(v@ =~= seq![b]);
        }
        v
    }
}

/// Escapes every byte of `s` from position `i` on.
fn escape_from(s: &[u8], i: usize) -> (out: Vec<u8>)
    requires
        i <= s@.len(),
    ensures
        out@ == escape_bytes(s@.skip(i as int)),
    decreases s@.len() - i,
{
    if i == s.len() {
        proof {
            assert(s@.skip(i as int) =~= Seq::<u8>::empty());
        }
        Vec::new()
    } else {
        let mut out = escape_one(s[i]);
        let mut rest = escape_from(s, i + 1);
        out.append(&mut rest);
        proof {
            assert(s@.skip(i as int).drop_first() =~= s@.skip(i as int + 1));
            assert(s@.skip(i as int)[0] == s@[i as int]);
        }
        out
    }
}

/// Escapes a whole byte string for substitution into markup.
pub fn escape_value(s: &[u8]) -> (out: Vec<u8>)
    ensures
        out@ == escape_bytes(s@),
{
    let out = escape_from(s, 0);
    proof {
        assert(s@.skip(0) =~= s@);
    }
    out
}

impl TemplateContext {
    /// The model: name/value pairs in binding order.
    pub open spec fn model(&self) -> Seq<(Seq<u8>, Seq<u8>)> {
        ctx_model(self.entries@)
    }

    /// An empty context.
    pub fn new() -> (c: TemplateContext)
        ensures
            c.model() == Seq::<(Seq<u8>, Seq<u8>)>::empty(),
    {
        let c = TemplateContext { entries: Vec::new() };
        proof {
            assert(c.model() =~= Seq::<(Seq<u8>, Seq<u8>)>::empty());
        }
        c
    }

    /// Adds a binding after the present ones.
    pub fn bind(&mut self, name: Vec<u8>, value: Vec<u8>)
        ensures
            final(self).model() == old(self).model() + seq![(name@, value@)],
    {
        let ghost before = self.model();
        self.entries.push((name, value));
        proof {
            assert(self.model() =~= before + seq![(name@, value@)]);
        }
    }

    /// Looks a name up, returning a copy of its value.
    fn lookup(&self, name: &[u8]) -> (r: Option<Vec<u8>>)
        ensures
            (r is Some) == (lookup_spec(self.model(), name@) is Some),
            r matches Some(v) ==> lookup_spec(self.model(), name@) == Some(v@),
    {
        let mut i: usize = 0;
        proof {
            assert(self.model().skip(0) =~= self.model());
        }
        while i < self.entries.len()
            invariant
                0 <= i <= self.entries.len(),
                lookup_spec(self.model(), name@) == lookup_spec(
                    self.model().skip(i as int),
                    name@,
                ),
            decreases self.entries.len() - i,
        {
            proof {
                assert(self.model().skip(i as int)[0] == (self.entries@[i as int].0@,
                self.entries@[i as int].1@));
                assert(self.model().skip(i as int).drop_first() =~= self.model().skip(
                    i as int + 1,
                ));
            }
            if crate::bytes::bytes_eq(self.entries[i].0.as_slice(), name) {
                return Some(vstd::slice::slice_to_vec(self.entries[i].1.as_slice()));
            }
            i += 1;
        }
        proof {
            assert(self.model().skip(i as int) =~= Seq::<(Seq<u8>, Seq<u8>)>::empty());
        }
        None
    }
}

impl Template {
    /// The model: the segment list.
    pub open spec fn model(&self) -> Seq<Seg> {
        segs_model(self.segments@)
    }

    /// Parses template text into segments.
    ///
    /// Returns `Err(TemplateError::Malformed)` exactly when the text has a
    /// `{{` that no well-formed variable slot follows.
    pub fn parse(src: &[u8]) -> (r: Result<Template, TemplateError>)
        ensures
            (r is Ok) == (parse_from(src@, 0) is Some),
            r matches Ok(t) ==> parse_from(src@, 0) == Some(t.model()),
            r matches Err(e) ==> e == TemplateError::Malformed,
    {
        match parse_segments(src, 0) {
            Some(v) => Ok(Template { segments: v }),
            None => Err(TemplateError::Malformed),
        }
    }

    /// Renders the template under a context.
    ///
    /// Returns `Err(TemplateError::UnknownVariable)` exactly when some
    /// variable segment names a variable the context does not bind;
    /// otherwise the rendered document, with every substituted value
    /// escaped.
    pub fn render(&self, ctx: &TemplateContext) -> (r: Result<Vec<u8>, TemplateError>)
        ensures
            (r is Ok) == (render_segs(self.model(), ctx.model()) is Some),
            r matches Ok(v) ==> render_segs(self.model(), ctx.model()) == Some(v@),
            r matches Err(e) ==> e == TemplateError::UnknownVariable,
    {
        match render_segments(&self.segments, 0, ctx) {
            Some(v) => {
                proof {
                    assert(self.model().skip(0) =~= self.model());
                }
                Ok(v)
            },
            None => {
                proof {
                    assert(self.model().skip(0) =~= self.model());
                }
                Err(TemplateError::UnknownVariable)
            },
        }
    }
}

fn render_segments(segs: &Vec<Segment>, i: usize, ctx: &TemplateContext) -> (r: Option<Vec<u8>>)
    requires
        i <= segs@.len(),
    ensures
        (r is Some) == (render_segs(segs_model(segs@).skip(i as int), ctx.model()) is Some),
        r matches Some(v) ==> render_segs(segs_model(segs@).skip(i as int), ctx.model()) == Some(
            v@,
        ),
    decreases segs@.len() - i,
{
    let ghost m = segs_model(segs@).skip(i as int);
    if i == segs.len() {
        proof {
            assert(m =~= Seq::<Seg>::empty());
        }
        return Some(Vec::new());
    }
    proof {
        assert(m[0] == seg_model(segs@[i as int]));
        assert(m.drop_first() =~= segs_model(segs@).skip(i as int + 1));
    }
    let head: Vec<u8> = match &segs[i] {
        Segment::Lit(b) => vstd::slice::slice_to_vec(b.as_slice()),
        Segment::Var(n) => {
            match ctx.lookup(n.as_slice()) {
                None => {
                    return None;
                },
                Some(v) => escape_value(v.as_slice()),
            }
        },
    };
    match render_segments(segs, i + 1, ctx) {
        None => None,
        Some(mut rest) => {
            let mut out = head;
            out.append(&mut rest);
            Some(out)
        },
    }
}

} // verus!
