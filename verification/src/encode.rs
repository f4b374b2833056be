//! Content encoding: text escaping for property values and byte-limited,
//! UTF-8-safe folding of content lines.
//!
//! Both operations work on byte sequences. Escaping prefixes each comma,
//! semicolon and backslash with a backslash and normalizes line endings to the
//! two-byte token `\n`. Folding cuts one logical line into physical segments
//! of at most 75 octets (continuations at most 74, behind a leading space),
//! never cutting inside a multi-byte UTF-8 character.
use vstd::prelude::*;

verus! {

use vstd::string::StringSliceAdditionalSpecFns;
use vstd::string::StrSliceExecFns;
use vstd::utf8::is_continuation_byte;
use vstd::utf8::length_of_first_scalar;
use vstd::utf8::pop_first_scalar;
use vstd::utf8::valid_first_scalar;
use vstd::utf8::valid_utf8;

/// True for bytes that may follow a leading byte inside a multi-byte UTF-8
/// character.
pub open spec fn spec_is_continuation(b: u8) -> bool {
    128 <= b < 192
}

/// Executable test for a UTF-8 continuation byte.
pub fn is_continuation(b: u8) -> (r: bool)
    ensures
        r == spec_is_continuation(b),
{
    128 <= b && b < 192
}

// ---------------------------------------------------------------------------
// Escaping
// ---------------------------------------------------------------------------

/// What the bytes of `s` from position `i` on escape to: commas, semicolons
/// and backslashes gain a backslash prefix, a line feed becomes `\n`, a
/// carriage return becomes `\n` unless a line feed follows it directly (then
/// it adds nothing, so both bare CR and CRLF yield one `\n` token).
pub open spec fn esc_from(s: Seq<u8>, i: int) -> Seq<u8>
    decreases s.len() - i,
{
    if i < 0 || i >= s.len() {
        Seq::empty()
    } else {
        let b = s[i];
        let piece: Seq<u8> = if b == 44 || b == 59 || b == 92 {
            seq![92u8, b]
        } else if b == 10 {
            seq![92u8, 110u8]
        } else if b == 13 {
            if i + 1 < s.len() && s[i + 1] == 10 {
                Seq::empty()
            } else {
                seq![92u8, 110u8]
            }
        } else {
            seq![b]
        };
        piece + esc_from(s, i + 1)
    }
}

/// The escaped form of a whole byte sequence.
pub open spec fn escape_spec(s: Seq<u8>) -> Seq<u8> {
    esc_from(s, 0)
}

/// Escape free text for embedding in a single property value.
pub fn escape_text(input: &[u8]) -> (r: Vec<u8>)
    ensures
        r@ == escape_spec(input@),
{
    let mut out: Vec<u8> = Vec::new();
    let mut i: usize = 0;
    while i < input.len()
        invariant
            i <= input.len(),
            escape_spec(input@) == out@ + esc_from(input@, i as int),
        decreases input.len() - i,
    {
        let ghost prev = out@;
        let b = input[i];
        if b == 44 || b == 59 || b == 92 {
            out.push(92);
            out.push(b);
        } else if b == 10 {
            out.push(92);
            out.push(110);
        } else if b == 13 {
            if !(i + 1 < input.len() && input[i + 1] == 10) {
                out.push(92);
                out.push(110);
            }
        } else {
            out.push(b);
        }
        proof {
            assert(escape_spec(input@) == prev + esc_from(input@, i as int));
            assert(prev + esc_from(input@, i as int) =~= out@ + esc_from(
                input@,
                i as int + 1,
            ));
        }
        i = i + 1;
    }
    proof {
        assert(escape_spec(input@) =~= out@);
    }
    out
}

/// True when no byte of `s` is one the escape transformation acts on.
pub open spec fn escape_free(s: Seq<u8>) -> bool {
    forall|j: int|
        0 <= j < s.len() ==> !(s[j] == 44 || s[j] == 59 || s[j] == 92 || s[j] == 13 || s[j]
            == 10)
}

proof fn lemma_esc_from_clean(s: Seq<u8>, i: int)
    requires
        0 <= i <= s.len(),
        escape_free(s),
    ensures
        esc_from(s, i) =~= s.skip(i),
    decreases s.len() - i,
{
    if i < s.len() {
        lemma_esc_from_clean(s, i + 1);
        assert(esc_from(s, i) =~= seq![s[i]] + s.skip(i + 1));
        assert(seq![s[i]] + s.skip(i + 1) =~= s.skip(i));
    }
}

/// Law: on text holding no comma, semicolon, backslash, carriage return or
/// line feed, escaping returns its input unchanged, and so escaping such text
/// twice is the same as escaping it once.
pub proof fn lemma_escape_idempotent(s: Seq<u8>)
    requires
        escape_free(s),
    ensures
        escape_spec(s) == s,
        escape_spec(escape_spec(s)) == escape_spec(s),
{
    lemma_esc_from_clean(s, 0);
    assert(s.skip(0) =~= s);
}

proof fn lemma_esc_from_no_breaks(s: Seq<u8>, i: int)
    requires
        0 <= i <= s.len(),
    ensures
        forall|j: int|
            0 <= j < esc_from(s, i).len() ==> esc_from(s, i)[j] != 13 && esc_from(s, i)[j] != 10,
    decreases s.len() - i,
{
    if i < s.len() {
        lemma_esc_from_no_breaks(s, i + 1);
        let rest = esc_from(s, i + 1);
        let cur = esc_from(s, i);
        let b = s[i];
        assert forall|j: int| 0 <= j < cur.len() implies cur[j] != 13 && cur[j] != 10 by {
            if b == 44 || b == 59 || b == 92 {
                assert(cur == seq![92u8, b] + rest);
                if j >= 2 {
                    assert(cur[j] == rest[j - 2]);
                }
            } else if b == 10 || (b == 13 && !(i + 1 < s.len() && s[i + 1] == 10)) {
                assert(cur == seq![92u8, 110u8] + rest);
                if j >= 2 {
                    assert(cur[j] == rest[j - 2]);
                }
            } else if b == 13 {
                assert(cur == Seq::<u8>::empty() + rest);
                assert(cur[j] == rest[j]);
            } else {
                assert(cur == seq![b] + rest);
                if j >= 1 {
                    assert(cur[j] == rest[j - 1]);
                }
            }
        }
    }
}

/// Law: escaped text holds no raw carriage return and no raw line feed; both
/// line endings of the input have become two-byte `\n` tokens.
pub proof fn lemma_escape_leaves_no_line_breaks(s: Seq<u8>)
    ensures
        forall|j: int|
            0 <= j < escape_spec(s).len() ==> escape_spec(s)[j] != 13 && escape_spec(s)[j] != 10,
{
    lemma_esc_from_no_breaks(s, 0);
}

// ---------------------------------------------------------------------------
// Folding
// ---------------------------------------------------------------------------

/// Position of the rightmost byte at or before `i` that does not continue a
/// multi-byte character, or 0 when every byte in `1..=i` does.
pub open spec fn back_scan(s: Seq<u8>, i: int) -> int
    decreases i,
{
    if i <= 0 {
        0
    } else if !spec_is_continuation(s[i]) {
        i
    } else {
        back_scan(s, i - 1)
    }
}

/// Where to cut a segment of at most `limit` octets off the front of `s`:
/// all of `s` when it fits, otherwise at the rightmost character start within
/// the window, falling back to exactly `limit` when the window past position
/// 0 holds only continuation bytes (a degenerate run longer than the limit;
/// cutting there keeps progress at the price of splitting the run).
pub open spec fn spec_next_boundary(s: Seq<u8>, limit: int) -> int {
    if s.len() <= limit {
        s.len() as int
    } else {
        let b = back_scan(s, limit);
        if b == 0 {
            limit
        } else {
            b
        }
    }
}

proof fn lemma_back_scan(s: Seq<u8>, i: int)
    requires
        0 <= i < s.len(),
    ensures
        0 <= back_scan(s, i) <= i,
        back_scan(s, i) > 0 ==> !spec_is_continuation(s[back_scan(s, i)]),
        back_scan(s, i) == 0 ==> forall|j: int|
            1 <= j <= i ==> spec_is_continuation(s[j]),
    decreases i,
{
    if i > 0 && spec_is_continuation(s[i]) {
        lemma_back_scan(s, i - 1);
    }
}

/// A boundary always cuts off at least one byte and never more than remain.
pub proof fn lemma_next_boundary_bounds(s: Seq<u8>, limit: int)
    requires
        s.len() >= 1,
        limit >= 1,
    ensures
        1 <= spec_next_boundary(s, limit) <= s.len(),
        spec_next_boundary(s, limit) <= limit,
{
    if s.len() > limit {
        lemma_back_scan(s, limit);
    }
}

/// Law: whenever the window `1..=limit` holds at least one byte that starts a
/// character, the chosen cut lands on such a byte, so no multi-byte character
/// is ever split there.
pub proof fn lemma_fold_break_on_character(s: Seq<u8>, limit: int)
    requires
        1 <= limit < s.len(),
        exists|j: int| 1 <= j <= limit && !spec_is_continuation(s[j]),
    ensures
        1 <= spec_next_boundary(s, limit) <= limit,
        !spec_is_continuation(s[spec_next_boundary(s, limit)]),
{
    lemma_back_scan(s, limit);
    if back_scan(s, limit) == 0 {
        let j = choose|j: int| 1 <= j <= limit && !spec_is_continuation(s[j]);
        assert(spec_is_continuation(s[j]));
    }
}

/// Find the next segment boundary in `content` for a budget of `limit`
/// octets.
pub fn next_boundary(content: &[u8], limit: usize) -> (r: usize)
    requires
        limit >= 1,
    ensures
        r as int == spec_next_boundary(content@, limit as int),
{
    if content.len() <= limit {
        return content.len();
    }
    let mut i: usize = limit;
    while i > 0
        invariant
            i <= limit,
            limit < content@.len(),
            back_scan(content@, limit as int) == back_scan(content@, i as int),
        decreases i,
    {
        if !is_continuation(content[i]) {
            return i;
        }
        i = i - 1;
    }
    limit
}

/// The carriage-return/line-feed pair ending every physical line.
pub open spec fn crlf() -> Seq<u8> {
    seq![13u8, 10u8]
}

/// Whether two byte slices hold the same bytes.
pub fn bytes_eq(a: &[u8], b: &[u8]) -> (r: bool)
    ensures
        r == (a@ == b@),
{
    if a.len() != b.len() {
        return false;
    }
    let mut i: usize = 0;
    while i < a.len()
        invariant
            i <= a@.len(),
            a@.len() == b@.len(),
            forall|j: int| 0 <= j < i ==> a@[j] == b@[j],
        decreases a.len() - i,
    {
        if a[i] != b[i] {
            return false;
        }
        i = i + 1;
    }
    proof {
        assert(a@ =~= b@);
    }
    true
}

/// A fresh vector holding the same elements.
pub fn copy_vec<T: Copy>(v: &Vec<T>) -> (r: Vec<T>)
    ensures
        r@ == v@,
{
    let mut out: Vec<T> = Vec::new();
    let mut i: usize = 0;
    while i < v.len()
        invariant
            i <= v@.len(),
            out@ == v@.take(i as int),
        decreases v.len() - i,
    {
        out.push(v[i]);
        proof {
            assert(v@.take(i as int) + seq![v@[i as int]] =~= v@.take(i as int + 1));
        }
        i = i + 1;
    }
    proof {
        assert(v@.take(v@.len() as int) =~= v@);
    }
    out
}

/// A fresh vector holding the same bytes.
pub fn copy_bytes(v: &Vec<u8>) -> (r: Vec<u8>)
    ensures
        r@ == v@,
{
    copy_vec(v)
}

/// Append every byte of `other` to `out`.
pub fn append_bytes(out: &mut Vec<u8>, other: &[u8])
    ensures
        final(out)@ == old(out)@ + other@,
{
    let ghost orig = out@;
    let mut i: usize = 0;
    while i < other.len()
        invariant
            i <= other.len(),
            out@ == orig + other@.take(i as int),
        decreases other.len() - i,
    {
        out.push(other[i]);
        proof {
            assert(orig + other@.take(i as int) + seq![other@[i as int]] =~= orig + other@.take(
                i as int + 1,
            ));
        }
        i = i + 1;
    }
    proof {
        assert(orig + other@.take(other@.len() as int) =~= orig + other@);
    }
}

/// The wire form of everything after the first segment: each continuation
/// holds at most 74 octets behind one leading space, and every segment ends
/// with a line break.
pub open spec fn fold_tail(s: Seq<u8>) -> Seq<u8>
    decreases s.len(),
    via fold_tail_decreases
{
    if s.len() == 0 {
        crlf()
    } else {
        let b = spec_next_boundary(s, 74);
        crlf() + seq![32u8] + s.take(b) + fold_tail(s.skip(b))
    }
}

#[via_fn]
proof fn fold_tail_decreases(s: Seq<u8>) {
    if s.len() != 0 {
        lemma_next_boundary_bounds(s, 74);
    }
}

/// The wire form of one logical line: a first segment of at most 75 octets,
/// then continuations; empty input yields no output at all.
pub open spec fn fold_spec(s: Seq<u8>) -> Seq<u8> {
    if s.len() == 0 {
        Seq::empty()
    } else {
        let b = spec_next_boundary(s, 75);
        s.take(b) + fold_tail(s.skip(b))
    }
}

/// Fold one logical line into its physical segments.
pub fn fold_line(content: &[u8]) -> (r: Vec<u8>)
    ensures
        r@ == fold_spec(content@),
{
    let mut out: Vec<u8> = Vec::new();
    if content.len() == 0 {
        return out;
    }
    let b = next_boundary(content, 75);
    proof {
        lemma_next_boundary_bounds(content@, 75);
    }
    append_bytes(&mut out, &content[0..b]);
    proof {
        assert(content@.subrange(0, b as int) =~= content@.take(b as int));
        assert(fold_spec(content@) == out@ + fold_tail(content@.skip(b as int)));
    }
    let mut pos: usize = b;
    while pos < content.len()
        invariant
            1 <= pos <= content@.len(),
            fold_spec(content@) == out@ + fold_tail(content@.skip(pos as int)),
        decreases content@.len() - pos,
    {
        let ghost prev = out@;
        out.push(13);
        out.push(10);
        out.push(32);
        let rest = &content[pos..content.len()];
        let nb = next_boundary(rest, 74);
        proof {
            lemma_next_boundary_bounds(rest@, 74);
        }
        append_bytes(&mut out, &rest[0..nb]);
        proof {
            let tail = content@.skip(pos as int);
            assert(rest@ =~= tail);
            assert(rest@.subrange(0, nb as int) =~= tail.take(nb as int));
            assert(tail.skip(nb as int) =~= content@.skip(pos as int + nb as int));
            assert(prev + fold_tail(tail) =~= out@ + fold_tail(
                content@.skip(pos as int + nb as int),
            ));
        }
        pos = pos + nb;
    }
    out.push(13);
    out.push(10);
    proof {
        assert(content@.skip(pos as int) =~= Seq::<u8>::empty());
        assert(fold_spec(content@) =~= out@);
    }
    out
}

// ---------------------------------------------------------------------------
// The shape of folded output
// ---------------------------------------------------------------------------

/// The physical segments after the first: each holds one leading space and
/// at most 74 content octets.
pub open spec fn seg_tail(s: Seq<u8>) -> Seq<Seq<u8>>
    decreases s.len(),
    via seg_tail_decreases
{
    if s.len() == 0 {
        Seq::empty()
    } else {
        let b = spec_next_boundary(s, 74);
        seq![seq![32u8] + s.take(b)] + seg_tail(s.skip(b))
    }
}

#[via_fn]
proof fn seg_tail_decreases(s: Seq<u8>) {
    if s.len() != 0 {
        lemma_next_boundary_bounds(s, 74);
    }
}

/// The physical segments of one folded line: the first segment, then the
/// space-led continuations.
pub open spec fn fold_segments(s: Seq<u8>) -> Seq<Seq<u8>> {
    if s.len() == 0 {
        Seq::empty()
    } else {
        seq![s.take(spec_next_boundary(s, 75))] + seg_tail(s.skip(spec_next_boundary(s, 75)))
    }
}

/// Segments glued back onto the wire, each ended by one line break.
pub open spec fn glue_segments(segs: Seq<Seq<u8>>) -> Seq<u8>
    decreases segs.len(),
{
    if segs.len() == 0 {
        Seq::empty()
    } else {
        segs[0] + crlf() + glue_segments(segs.skip(1))
    }
}

/// The content carried by space-led continuations, leading spaces dropped.
pub open spec fn continuations_content(segs: Seq<Seq<u8>>) -> Seq<u8>
    decreases segs.len(),
{
    if segs.len() == 0 {
        Seq::empty()
    } else {
        segs[0].skip(1) + continuations_content(segs.skip(1))
    }
}

proof fn lemma_fold_tail_glue(s: Seq<u8>)
    ensures
        fold_tail(s) == crlf() + glue_segments(seg_tail(s)),
    decreases s.len(),
{
    if s.len() == 0 {
        assert(fold_tail(s) =~= crlf() + glue_segments(seg_tail(s)));
    } else {
        lemma_next_boundary_bounds(s, 74);
        let b = spec_next_boundary(s, 74);
        lemma_fold_tail_glue(s.skip(b));
        assert(seg_tail(s).skip(1) =~= seg_tail(s.skip(b)));
        assert(fold_tail(s) =~= crlf() + glue_segments(seg_tail(s)));
    }
}

proof fn lemma_seg_tail_props(s: Seq<u8>)
    ensures
        forall|i: int|
            0 <= i < seg_tail(s).len() ==> 1 <= (#[trigger] seg_tail(s)[i]).len() <= 75
                && seg_tail(s)[i][0] == 32,
        continuations_content(seg_tail(s)) == s,
    decreases s.len(),
{
    if s.len() == 0 {
        assert(continuations_content(seg_tail(s)) =~= s);
    } else {
        lemma_next_boundary_bounds(s, 74);
        let b = spec_next_boundary(s, 74);
        lemma_seg_tail_props(s.skip(b));
        assert(seg_tail(s).skip(1) =~= seg_tail(s.skip(b)));
        assert((seq![32u8] + s.take(b)).skip(1) =~= s.take(b));
        assert(s.take(b) + s.skip(b) =~= s);
        assert(continuations_content(seg_tail(s)) =~= s);
        assert forall|i: int|
            0 <= i < seg_tail(s).len() implies 1 <= (#[trigger] seg_tail(s)[i]).len() <= 75
            && seg_tail(s)[i][0] == 32 by {
            if i > 0 {
                assert(seg_tail(s)[i] == seg_tail(s.skip(b))[i - 1]);
            }
        }
    }
}

/// Law: the folded wire form of a non-empty line is exactly a run of
/// segments, each ended by one line break: the first of at most 75 octets,
/// every later one a leading space and at most 74 further octets; and the
/// segments together carry exactly the input bytes, nothing lost and nothing
/// added.
pub proof fn lemma_fold_structure(s: Seq<u8>)
    requires
        s.len() > 0,
    ensures
        fold_spec(s) == glue_segments(fold_segments(s)),
        fold_segments(s).len() >= 1,
        fold_segments(s)[0].len() <= 75,
        forall|i: int|
            1 <= i < fold_segments(s).len() ==> (#[trigger] fold_segments(s)[i]).len() <= 75
                && fold_segments(s)[i][0] == 32,
        s == fold_segments(s)[0] + continuations_content(fold_segments(s).skip(1)),
{
    lemma_next_boundary_bounds(s, 75);
    let b = spec_next_boundary(s, 75);
    lemma_fold_tail_glue(s.skip(b));
    lemma_seg_tail_props(s.skip(b));
    assert(fold_segments(s).skip(1) =~= seg_tail(s.skip(b)));
    assert(fold_spec(s) =~= glue_segments(fold_segments(s)));
    assert(s.take(b) + s.skip(b) =~= s);
    assert forall|i: int|
        1 <= i < fold_segments(s).len() implies (#[trigger] fold_segments(s)[i]).len() <= 75
        && fold_segments(s)[i][0] == 32 by {
        assert(fold_segments(s)[i] == seg_tail(s.skip(b))[i - 1]);
    }
}

// ---------------------------------------------------------------------------
// Folding respects UTF-8
// ---------------------------------------------------------------------------

proof fn lemma_first_scalar_shape(s: Seq<u8>)
    requires
        valid_first_scalar(s),
    ensures
        1 <= length_of_first_scalar(s) <= 4,
        length_of_first_scalar(s) <= s.len(),
        !is_continuation_byte(s[0]),
        forall|k: int| 1 <= k < length_of_first_scalar(s) ==> is_continuation_byte(s[k]),
{
}

proof fn lemma_valid_utf8_split(s: Seq<u8>, p: int)
    requires
        valid_utf8(s),
        0 <= p <= s.len(),
        p == s.len() || !is_continuation_byte(s[p]),
    ensures
        valid_utf8(s.take(p)),
        valid_utf8(s.skip(p)),
    decreases s.len(),
{
    if p == 0 {
        assert(s.take(0) =~= Seq::<u8>::empty());
        assert(s.skip(0) =~= s);
    } else if p == s.len() {
        assert(s.take(p) =~= s);
        assert(s.skip(p) =~= Seq::<u8>::empty());
    } else {
        lemma_first_scalar_shape(s);
        let len1 = length_of_first_scalar(s);
        assert(p >= len1);
        assert(pop_first_scalar(s) =~= s.skip(len1));
        lemma_valid_utf8_split(s.skip(len1), p - len1);
        assert(s.skip(len1).skip(p - len1) =~= s.skip(p));
        let t = s.take(p);
        assert(forall|k: int| 0 <= k < p ==> t[k] == s[k]);
        assert(valid_first_scalar(t));
        assert(length_of_first_scalar(t) == len1);
        assert(pop_first_scalar(t) =~= s.skip(len1).take(p - len1));
        assert(valid_utf8(t));
    }
}

proof fn lemma_valid_utf8_window(s: Seq<u8>, limit: int)
    requires
        valid_utf8(s),
        4 <= limit < s.len(),
    ensures
        exists|j: int| 1 <= j <= limit && !spec_is_continuation(s[j]),
{
    reveal_with_fuel(valid_utf8, 2);
    lemma_first_scalar_shape(s);
    let len1 = length_of_first_scalar(s);
    let rest = pop_first_scalar(s);
    assert(rest =~= s.skip(len1));
    assert(rest.len() > 0);
    assert(valid_utf8(rest));
    assert(valid_first_scalar(rest));
    lemma_first_scalar_shape(rest);
    assert(rest[0] == s[len1]);
    assert(1 <= len1 <= limit && !spec_is_continuation(s[len1]));
}

proof fn lemma_boundary_on_scalar_start(s: Seq<u8>, limit: int)
    requires
        valid_utf8(s),
        s.len() > 0,
        4 <= limit,
    ensures
        spec_next_boundary(s, limit) == s.len() || !is_continuation_byte(
            s[spec_next_boundary(s, limit)],
        ),
{
    if s.len() > limit {
        lemma_valid_utf8_window(s, limit);
        lemma_fold_break_on_character(s, limit);
    }
}

proof fn lemma_seg_tail_utf8(s: Seq<u8>)
    requires
        valid_utf8(s),
    ensures
        forall|i: int|
            0 <= i < seg_tail(s).len() ==> valid_utf8((#[trigger] seg_tail(s)[i]).skip(1)),
    decreases s.len(),
{
    if s.len() != 0 {
        lemma_next_boundary_bounds(s, 74);
        let b = spec_next_boundary(s, 74);
        lemma_boundary_on_scalar_start(s, 74);
        lemma_valid_utf8_split(s, b);
        lemma_seg_tail_utf8(s.skip(b));
        assert(seg_tail(s).skip(1) =~= seg_tail(s.skip(b)));
        assert((seq![32u8] + s.take(b)).skip(1) =~= s.take(b));
        assert forall|i: int|
            0 <= i < seg_tail(s).len() implies valid_utf8(
            (#[trigger] seg_tail(s)[i]).skip(1),
        ) by {
            if i > 0 {
                assert(seg_tail(s)[i] == seg_tail(s.skip(b))[i - 1]);
            }
        }
    }
}

/// Law: folding a valid UTF-8 line never splits a multi-byte character: the
/// first segment, and the content of every continuation once its leading
/// space is dropped, are themselves valid UTF-8, so every inserted break
/// falls between complete characters.
pub proof fn lemma_fold_respects_utf8(s: Seq<u8>)
    requires
        valid_utf8(s),
        s.len() > 0,
    ensures
        valid_utf8(fold_segments(s)[0]),
        forall|i: int|
            1 <= i < fold_segments(s).len() ==> valid_utf8(
                (#[trigger] fold_segments(s)[i]).skip(1),
            ),
{
    lemma_next_boundary_bounds(s, 75);
    let b = spec_next_boundary(s, 75);
    lemma_boundary_on_scalar_start(s, 75);
    lemma_valid_utf8_split(s, b);
    lemma_seg_tail_utf8(s.skip(b));
    assert(fold_segments(s)[0] == s.take(b));
    assert(fold_segments(s).skip(1) =~= seg_tail(s.skip(b)));
    assert forall|i: int|
        1 <= i < fold_segments(s).len() implies valid_utf8(
        (#[trigger] fold_segments(s)[i]).skip(1),
    ) by {
        assert(fold_segments(s)[i] == seg_tail(s.skip(b))[i - 1]);
    }
}

// ---------------------------------------------------------------------------
// Content lines
// ---------------------------------------------------------------------------

proof fn lemma_ascii_prepend(b: u8, r: Seq<u8>)
    requires
        b < 128,
        valid_utf8(r),
    ensures
        valid_utf8(seq![b] + r),
{
    let c = seq![b] + r;
    assert(c[0] == b);
    assert(valid_first_scalar(c));
    assert(length_of_first_scalar(c) == 1);
    assert(pop_first_scalar(c) =~= r);
    assert(valid_utf8(c));
}

proof fn lemma_scalar_prepend(t: Seq<u8>, r: Seq<u8>)
    requires
        valid_first_scalar(t),
        valid_utf8(r),
    ensures
        valid_utf8(t.take(length_of_first_scalar(t)) + r),
{
    let len1 = length_of_first_scalar(t);
    lemma_first_scalar_shape(t);
    let c = t.take(len1) + r;
    assert(forall|k: int| 0 <= k < len1 ==> c[k] == t[k]);
    assert(valid_first_scalar(c));
    assert(length_of_first_scalar(c) == len1);
    assert(pop_first_scalar(c) =~= r);
    assert(valid_utf8(c));
}

/// The raw line with every line feed replaced by the two-byte token `\n`,
/// from position `i` on.
pub open spec fn nl_from(s: Seq<u8>, i: int) -> Seq<u8>
    decreases s.len() - i,
{
    if i < 0 || i >= s.len() {
        Seq::empty()
    } else {
        (if s[i] == 10 {
            seq![92u8, 110u8]
        } else {
            seq![s[i]]
        }) + nl_from(s, i + 1)
    }
}

/// The raw line with every line feed replaced by the token `\n`.
pub open spec fn replace_newlines(s: Seq<u8>) -> Seq<u8> {
    nl_from(s, 0)
}

proof fn lemma_nl_from_valid(s: Seq<u8>, i: int)
    requires
        0 <= i <= s.len(),
        valid_utf8(s.skip(i)),
    ensures
        valid_utf8(nl_from(s, i)),
    decreases s.len() - i,
{
    if i < s.len() {
        let t = s.skip(i);
        assert(t.len() > 0);
        assert(valid_first_scalar(t));
        lemma_first_scalar_shape(t);
        let len1 = length_of_first_scalar(t);
        assert(pop_first_scalar(t) =~= s.skip(i + len1));
        lemma_nl_from_valid(s, i + len1);
        if len1 == 1 {
            assert(s[i] == t[0]);
            assert(s[i] < 128);
            if s[i] == 10 {
                lemma_ascii_prepend(110, nl_from(s, i + 1));
                assert(seq![110u8] + nl_from(s, i + 1) =~= (seq![92u8, 110u8] + nl_from(
                    s,
                    i + 1,
                )).skip(1));
                lemma_ascii_prepend(92, (seq![92u8, 110u8] + nl_from(s, i + 1)).skip(1));
                assert(seq![92u8] + (seq![92u8, 110u8] + nl_from(s, i + 1)).skip(1) =~= seq![
                    92u8,
                    110u8,
                ] + nl_from(s, i + 1));
            } else {
                lemma_ascii_prepend(s[i], nl_from(s, i + 1));
            }
        } else {
            assert(t[0] == s[i] && !is_continuation_byte(s[i]) && s[i] != 10);
            assert(forall|k: int|
                1 <= k < len1 ==> is_continuation_byte(t[k]) && #[trigger] t[k] == s[i + k]);
            lemma_scalar_prepend(t, nl_from(s, i + len1));
            if len1 == 2 {
                assert(nl_from(s, i) == seq![s[i]] + nl_from(s, i + 1));
                assert(nl_from(s, i + 1) == seq![s[i + 1]] + nl_from(s, i + 2));
                assert(nl_from(s, i) =~= t.take(2) + nl_from(s, i + 2));
            } else if len1 == 3 {
                assert(nl_from(s, i) == seq![s[i]] + nl_from(s, i + 1));
                assert(nl_from(s, i + 1) == seq![s[i + 1]] + nl_from(s, i + 2));
                assert(nl_from(s, i + 2) == seq![s[i + 2]] + nl_from(s, i + 3));
                assert(nl_from(s, i) =~= t.take(3) + nl_from(s, i + 3));
            } else {
                assert(nl_from(s, i) == seq![s[i]] + nl_from(s, i + 1));
                assert(nl_from(s, i + 1) == seq![s[i + 1]] + nl_from(s, i + 2));
                assert(nl_from(s, i + 2) == seq![s[i + 2]] + nl_from(s, i + 3));
                assert(nl_from(s, i + 3) == seq![s[i + 3]] + nl_from(s, i + 4));
                assert(nl_from(s, i) =~= t.take(4) + nl_from(s, i + 4));
            }
        }
    }
}

/// Law: a valid UTF-8 content line renders without ever splitting a
/// multi-byte character: the line is still valid UTF-8 after line feeds
/// become `\n` tokens, and each physical segment of the folded form (the
/// leading space of a continuation dropped) carries valid UTF-8 of its own.
pub proof fn lemma_render_respects_utf8(s: Seq<u8>)
    requires
        valid_utf8(s),
    ensures
        valid_utf8(replace_newlines(s)),
        replace_newlines(s).len() > 0 ==> {
            let segs = fold_segments(replace_newlines(s));
            valid_utf8(segs[0]) && forall|i: int|
                1 <= i < segs.len() ==> valid_utf8((#[trigger] segs[i]).skip(1))
        },
{
    lemma_nl_from_valid(s, 0);
    assert(s.skip(0) =~= s);
    if replace_newlines(s).len() > 0 {
        lemma_fold_respects_utf8(replace_newlines(s));
    }
}

/// What one content line renders to: line feeds become `\n` tokens, then the
/// result is folded. Kept opaque so that reasoning over whole documents
/// treats each rendered line as one abstract byte run.
#[verifier::opaque]
pub open spec fn render_spec(s: Seq<u8>) -> Seq<u8> {
    fold_spec(replace_newlines(s))
}

/// One logical content line of the output document.
pub struct ContentLine {
    bytes: Vec<u8>,
}

impl View for ContentLine {
    type V = Seq<u8>;

    closed spec fn view(&self) -> Seq<u8> {
        self.bytes@
    }
}

impl ContentLine {
    /// An empty line, which renders to nothing.
    pub fn new() -> (r: Self)
        ensures
            r@ == Seq::<u8>::empty(),
    {
        ContentLine { bytes: Vec::new() }
    }

    /// A line holding the bytes of the given text.
    pub fn from_text(s: &str) -> (r: Self)
        ensures
            r@ == s.spec_bytes(),
    {
        ContentLine { bytes: s.as_bytes_vec() }
    }

    /// A line holding the given bytes.
    pub fn from_bytes(b: Vec<u8>) -> (r: Self)
        ensures
            r@ == b@,
    {
        ContentLine { bytes: b }
    }

    /// The wire form of this line.
    pub fn render(&self) -> (r: Vec<u8>)
        ensures
            r@ == render_spec(self@),
    {
        render_line(self.bytes.as_slice())
    }
}

/// Produce the wire form of one logical line: line feeds become `\n` tokens,
/// then the result is folded.
pub fn render_line(content: &[u8]) -> (r: Vec<u8>)
    ensures
        r@ == render_spec(content@),
{
    let mut replaced: Vec<u8> = Vec::new();
    let mut i: usize = 0;
    while i < content.len()
        invariant
            i <= content@.len(),
            replace_newlines(content@) == replaced@ + nl_from(content@, i as int),
        decreases content@.len() - i,
    {
        let ghost prev = replaced@;
        let b = content[i];
        if b == 10 {
            replaced.push(92);
            replaced.push(110);
        } else {
            replaced.push(b);
        }
        proof {
            assert(prev + nl_from(content@, i as int) =~= replaced@ + nl_from(
                content@,
                i as int + 1,
            ));
        }
        i = i + 1;
    }
    proof {
        reveal(render_spec);
        assert(replace_newlines(content@) =~= replaced@);
    }
    fold_line(replaced.as_slice())
}

} // verus!
