//! The shape of the keys under which a workflow engine leaves its
//! intermediate files:
//!
//! ```text
//! <uuid>/call-<name>/shard-<index>/<leaf>
//! ```
//!
//! A key is made of segments, separated by `/`. It has the shape when four
//! segments in a row read as an execution identifier, a call, a shard and
//! one of the known leaf names, wherever in the key they stand. The logs
//! of a pipeline action, `pipelines-logs/action/<number>/stdout` and
//! `.../stderr`, count as a leaf of four segments.

use vstd::prelude::*;
use crate::chars::chars_of;
use crate::classes::{
    digit, hex_digit, is_digit, is_hex_digit, is_word_or_dash, word_or_dash,
};

verus! {

/// Every character of `s` from `from` on is a digit.
pub open spec fn digits_from(s: Seq<char>, from: int) -> bool {
    forall|i: int| from <= i < s.len() ==> is_digit(#[trigger] s[i])
}

/// Every character of `s` from `from` on may stand in a call's name.
pub open spec fn word_from(s: Seq<char>, from: int) -> bool {
    forall|i: int| from <= i < s.len() ==> is_word_or_dash(#[trigger] s[i])
}

/// What stands at place `at` of an identifier: a dash after the groups of
/// 8, 4, 4 and 4, a hexadecimal digit elsewhere.
pub open spec fn fits_uuid_at(at: int, c: char) -> bool {
    if at == 8 || at == 13 || at == 18 || at == 23 {
        c == '-'
    } else {
        is_hex_digit(c)
    }
}

/// An execution identifier: 32 hexadecimal digits in groups of 8, 4, 4, 4
/// and 12, with a dash between the groups.
pub open spec fn is_uuid(s: Seq<char>) -> bool {
    &&& s.len() == 36
    &&& forall|i: int| 0 <= i < 36 ==> fits_uuid_at(i, #[trigger] s[i])
}

/// `call-` and a name of at least one character.
pub open spec fn is_call(s: Seq<char>) -> bool {
    &&& "call-"@.is_prefix_of(s)
    &&& s.len() > "call-"@.len()
    &&& word_from(s, "call-"@.len() as int)
}

/// `shard-` and an index of one to five digits.
pub open spec fn is_shard(s: Seq<char>) -> bool {
    &&& "shard-"@.is_prefix_of(s)
    &&& 1 <= s.len() - "shard-"@.len() <= 5
    &&& digits_from(s, "shard-"@.len() as int)
}

/// A number of at least one digit.
pub open spec fn is_number(s: Seq<char>) -> bool {
    s.len() >= 1 && digits_from(s, 0)
}

/// One of the two output streams.
pub open spec fn is_stream(s: Seq<char>) -> bool {
    s == "stdout"@ || s == "stderr"@
}

/// The name of a file that the engine writes beside a shard.
pub open spec fn is_leaf(s: Seq<char>) -> bool {
    ||| s == "script"@
    ||| s == "rc"@
    ||| s == "gcs_delocalization.sh"@
    ||| s == "gcs_localization.sh"@
    ||| s == "gcs_transfer.sh"@
    ||| is_stream(s)
}

/// The segments of a key: what stands between one `/` and the next,
/// before the first and after the last. A key of `n` separators has
/// `n + 1` segments, some of which may be empty.
pub open spec fn segments(key: Seq<char>) -> Seq<Seq<char>>
    decreases key.len(),
{
    if key.len() == 0 {
        seq![Seq::<char>::empty()]
    } else {
        let before = segments(key.drop_last());
        if key.last() == '/' {
            before.push(Seq::<char>::empty())
        } else {
            before.drop_last().push(before.last().push(key.last()))
        }
    }
}

/// The segments from `at` on read as the log of a pipeline action.
pub open spec fn action_log_at(segs: Seq<Seq<char>>, at: int) -> bool {
    &&& 0 <= at && at + 4 <= segs.len()
    &&& segs[at] == "pipelines-logs"@
    &&& segs[at + 1] == "action"@
    &&& is_number(segs[at + 2])
    &&& is_stream(segs[at + 3])
}

/// The segments from `at` on read as an identifier, a call, a shard and a
/// leaf.
pub open spec fn shape_at(segs: Seq<Seq<char>>, at: int) -> bool {
    &&& 0 <= at && at + 4 <= segs.len()
    &&& is_uuid(segs[at])
    &&& is_call(segs[at + 1])
    &&& is_shard(segs[at + 2])
    &&& (is_leaf(segs[at + 3]) || action_log_at(segs, at + 3))
}

/// The key is that of an intermediate file: somewhere among its segments
/// the shape occurs.
pub open spec fn is_intermediate_key(key: Seq<char>) -> bool {
    exists|at: int| shape_at(segments(key), at)
}

/// The views of the segments of `segs`, in order.
pub open spec fn segment_views(segs: Seq<Vec<char>>) -> Seq<Seq<char>> {
    Seq::new(segs.len(), |i: int| segs[i]@)
}

/// Splits a key at each `/`.
pub fn split_segments(key: &str) -> (segs: Vec<Vec<char>>)
    ensures
        segment_views(segs@) == segments(key@),
{
    let chars = chars_of(key);
    let mut done: Vec<Vec<char>> = Vec::new();
    let mut open: Vec<char> = Vec::new();
    let mut i: usize = 0;
    while i < chars.len()
        invariant
            0 <= i <= chars.len(),
            segment_views(done@).push(open@) == segments(chars@.take(i as int)),
        decreases chars.len() - i,
    {
        let c = chars[i];
        let ghost upto = chars@.take(i as int + 1);
        assert(upto.drop_last() =~= chars@.take(i as int));
        assert(upto.last() == c);
        let ghost before = segment_views(done@).push(open@);
        if c == '/' {
            done.push(open);
            open = Vec::new();
            assert(segment_views(done@) =~= before);
        } else {
            open.push(c);
            assert(segment_views(done@).push(open@) =~= before.drop_last().push(
                before.last().push(c),
            ));
        }
        i += 1;
    }
    assert(chars@.take(chars.len() as int) =~= chars@);
    let ghost before = segment_views(done@).push(open@);
    done.push(open);
    assert(segment_views(done@) =~= before);
    done
}

/// Whether a segment reads exactly as `word`.
fn segment_is(seg: &Vec<char>, word: &str) -> (r: bool)
    ensures
        r == (seg@ == word@),
{
    let expected = chars_of(word);
    if seg.len() != expected.len() {
        return false;
    }
    let mut i: usize = 0;
    while i < seg.len()
        invariant
            0 <= i <= seg.len(),
            seg.len() == expected.len(),
            expected@ == word@,
            forall|j: int| 0 <= j < i ==> seg[j] == expected[j],
        decreases seg.len() - i,
    {
        if seg[i] != expected[i] {
            assert(seg@[i as int] != word@[i as int]);
            return false;
        }
        i += 1;
    }
    assert(seg@ =~= word@);
    true
}

/// How long `word` is if the segment begins with it.
fn prefix_len(seg: &Vec<char>, word: &str) -> (r: Option<usize>)
    ensures
        r is Some <==> word@.is_prefix_of(seg@),
        r matches Some(n) ==> n == word@.len(),
{
    let expected = chars_of(word);
    if seg.len() < expected.len() {
        return None;
    }
    let mut i: usize = 0;
    while i < expected.len()
        invariant
            0 <= i <= expected.len() <= seg.len(),
            expected@ == word@,
            forall|j: int| 0 <= j < i ==> seg[j] == expected[j],
        decreases expected.len() - i,
    {
        if seg[i] != expected[i] {
            assert(seg@.subrange(0, word@.len() as int)[i as int] != word@[i as int]);
            return None;
        }
        i += 1;
    }
    assert(seg@.subrange(0, word@.len() as int) =~= word@);
    Some(expected.len())
}

/// Whether the segment holds only digits from `from` on.
fn all_digits_from(seg: &Vec<char>, from: usize) -> (r: bool)
    requires
        from <= seg.len(),
    ensures
        r == digits_from(seg@, from as int),
{
    let mut i: usize = from;
    while i < seg.len()
        invariant
            from <= i <= seg.len(),
            forall|j: int| from <= j < i ==> is_digit(#[trigger] seg@[j]),
        decreases seg.len() - i,
    {
        if !digit(seg[i]) {
            return false;
        }
        i += 1;
    }
    true
}

/// Whether the segment holds only characters of a name from `from` on.
fn all_word_from(seg: &Vec<char>, from: usize) -> (r: bool)
    requires
        from <= seg.len(),
    ensures
        r == word_from(seg@, from as int),
{
    let mut i: usize = from;
    while i < seg.len()
        invariant
            from <= i <= seg.len(),
            forall|j: int| from <= j < i ==> is_word_or_dash(#[trigger] seg@[j]),
        decreases seg.len() - i,
    {
        if !word_or_dash(seg[i]) {
            return false;
        }
        i += 1;
    }
    true
}

/// Whether a segment is an execution identifier.
pub fn segment_is_uuid(seg: &Vec<char>) -> (r: bool)
    ensures
        r == is_uuid(seg@),
{
    if seg.len() != 36 {
        return false;
    }
    let mut i: usize = 0;
    while i < 36
        invariant
            0 <= i <= 36,
            seg.len() == 36,
            forall|j: int| 0 <= j < i ==> fits_uuid_at(j, #[trigger] seg@[j]),
        decreases 36 - i,
    {
        let c = seg[i];
        let fits = if i == 8 || i == 13 || i == 18 || i == 23 {
            c == '-'
        } else {
            hex_digit(c)
        };
        if !fits {
            assert(!fits_uuid_at(i as int, seg@[i as int]));
            return false;
        }
        i += 1;
    }
    true
}

/// Whether a segment names a call.
pub fn segment_is_call(seg: &Vec<char>) -> (r: bool)
    ensures
        r == is_call(seg@),
{
    match prefix_len(seg, "call-") {
        None => false,
        Some(n) => seg.len() > n && all_word_from(seg, n),
    }
}

/// Whether a segment names a shard.
pub fn segment_is_shard(seg: &Vec<char>) -> (r: bool)
    ensures
        r == is_shard(seg@),
{
    match prefix_len(seg, "shard-") {
        None => false,
        Some(n) => seg.len() > n && seg.len() - n <= 5 && all_digits_from(seg, n),
    }
}

/// Whether a segment is a number.
pub fn segment_is_number(seg: &Vec<char>) -> (r: bool)
    ensures
        r == is_number(seg@),
{
    seg.len() >= 1 && all_digits_from(seg, 0)
}

/// Whether a segment names an output stream.
pub fn segment_is_stream(seg: &Vec<char>) -> (r: bool)
    ensures
        r == is_stream(seg@),
{
    segment_is(seg, "stdout") || segment_is(seg, "stderr")
}

/// Whether a segment is one of the leaf names.
pub fn segment_is_leaf(seg: &Vec<char>) -> (r: bool)
    ensures
        r == is_leaf(seg@),
{
    segment_is(seg, "script") || segment_is(seg, "rc") || segment_is(seg, "gcs_delocalization.sh")
        || segment_is(seg, "gcs_localization.sh") || segment_is(seg, "gcs_transfer.sh")
        || segment_is_stream(seg)
}

/// Whether the segments from `at` on read as the log of a pipeline action.
fn action_log_starts_at(segs: &Vec<Vec<char>>, at: usize) -> (r: bool)
    requires
        at <= segs.len(),
    ensures
        r == action_log_at(segment_views(segs@), at as int),
{
    if segs.len() - at < 4 {
        return false;
    }
    segment_is(&segs[at], "pipelines-logs") && segment_is(&segs[at + 1], "action")
        && segment_is_number(&segs[at + 2]) && segment_is_stream(&segs[at + 3])
}

/// Whether the segments from `at` on read as identifier, call, shard and
/// leaf.
fn shape_starts_at(segs: &Vec<Vec<char>>, at: usize) -> (r: bool)
    requires
        at <= segs.len(),
    ensures
        r == shape_at(segment_views(segs@), at as int),
{
    if segs.len() - at < 4 {
        return false;
    }
    segment_is_uuid(&segs[at]) && segment_is_call(&segs[at + 1]) && segment_is_shard(
        &segs[at + 2],
    ) && (segment_is_leaf(&segs[at + 3]) || action_log_starts_at(segs, at + 3))
}

/// Decides whether a key is that of an intermediate file.
pub fn is_intermediate_file(key: &str) -> (r: bool)
    ensures
        r == is_intermediate_key(key@),
{
    let segs = split_segments(key);
    let mut at: usize = 0;
    while at < segs.len()
        invariant
            0 <= at <= segs.len(),
            segment_views(segs@) == segments(key@),
            forall|j: int| 0 <= j < at ==> !shape_at(segments(key@), j),
        decreases segs.len() - at,
    {
        if shape_starts_at(&segs, at) {
            return true;
        }
        at += 1;
    }
    false
}

/// The segments put together again, with a `/` between one and the next.
pub open spec fn join(segs: Seq<Seq<char>>) -> Seq<char>
    decreases segs.len(),
{
    if segs.len() == 0 {
        Seq::empty()
    } else if segs.len() == 1 {
        segs[0]
    } else {
        join(segs.drop_last()) + seq!['/'] + segs.last()
    }
}

/// None of the segments holds a `/`.
pub open spec fn separator_free(segs: Seq<Seq<char>>) -> bool {
    forall|i: int| 0 <= i < segs.len() ==> !(#[trigger] segs[i]).contains('/')
}

/// A key has at least one segment, and no segment holds a separator.
pub proof fn lemma_segments_hold_no_separator(key: Seq<char>)
    ensures
        segments(key).len() >= 1,
        separator_free(segments(key)),
    decreases key.len(),
{
    if key.len() > 0 {
        lemma_segments_hold_no_separator(key.drop_last());
        let before = segments(key.drop_last());
        let segs = segments(key);
        if key.last() != '/' {
            assert forall|i: int| 0 <= i < segs.len() implies !(#[trigger] segs[i]).contains(
                '/',
            ) by {
                if i == segs.len() - 1 {
                    let grown = before.last().push(key.last());
                    if grown.contains('/') {
                        let at = choose|at: int| 0 <= at < grown.len() && grown[at] == '/';
                        assert(before.last()[at] == '/');
                    }
                } else {
                    assert(segs[i] == before[i]);
                }
            }
        } else {
            assert forall|i: int| 0 <= i < segs.len() implies !(#[trigger] segs[i]).contains(
                '/',
            ) by {
                if i < segs.len() - 1 {
                    assert(segs[i] == before[i]);
                }
            }
        }
    }
}

/// The segments of a key, put together again, are the key.
pub proof fn lemma_segments_rejoin(key: Seq<char>)
    ensures
        join(segments(key)) == key,
    decreases key.len(),
{
    if key.len() == 0 {
        assert(join(segments(key)) =~= key);
    } else {
        lemma_segments_rejoin(key.drop_last());
        lemma_segments_hold_no_separator(key.drop_last());
        let before = segments(key.drop_last());
        let segs = segments(key);
        if key.last() == '/' {
            assert(segs.drop_last() =~= before);
            assert(join(segs) =~= key.drop_last().push('/'));
        } else if before.len() == 1 {
            assert(join(segs) =~= key.drop_last().push(key.last()));
        } else {
            assert(segs.drop_last() =~= before.drop_last());
            assert(join(segs) =~= join(before).push(key.last()));
        }
        assert(key.drop_last().push(key.last()) =~= key);
    }
}

/// Two keys with a `/` between them have the segments of the first and
/// then those of the second.
pub proof fn lemma_segments_of_joined(a: Seq<char>, b: Seq<char>)
    ensures
        segments(a + seq!['/'] + b) == segments(a) + segments(b),
    decreases b.len(),
{
    let whole = a + seq!['/'] + b;
    if b.len() == 0 {
        assert(whole.drop_last() =~= a);
        assert(segments(whole) =~= segments(a) + segments(b));
    } else {
        lemma_segments_of_joined(a, b.drop_last());
        lemma_segments_hold_no_separator(b.drop_last());
        assert(whole.drop_last() =~= a + seq!['/'] + b.drop_last());
        assert(whole.last() == b.last());
        assert(segments(whole) =~= segments(a) + segments(b));
    }
}

/// Text without a `/` is one segment.
pub proof fn lemma_segments_of_one(segment: Seq<char>)
    requires
        !segment.contains('/'),
    ensures
        segments(segment) == seq![segment],
    decreases segment.len(),
{
    if segment.len() == 0 {
        assert(segment =~= Seq::<char>::empty());
    } else {
        let shorter = segment.drop_last();
        assert(!shorter.contains('/')) by {
            if shorter.contains('/') {
                let at = choose|at: int| 0 <= at < shorter.len() && shorter[at] == '/';
                assert(segment[at] == '/');
            }
        }
        lemma_segments_of_one(shorter);
        assert(segment.last() != '/') by {
            assert(segment[segment.len() - 1] == segment.last());
        }
        assert(shorter.push(segment.last()) =~= segment);
        assert(segments(segment) =~= seq![segment]);
    }
}

/// Splitting undoes joining: a key put together from segments without
/// separators has just these segments.
pub proof fn lemma_segments_of_join(segs: Seq<Seq<char>>)
    requires
        segs.len() >= 1,
        separator_free(segs),
    ensures
        segments(join(segs)) == segs,
    decreases segs.len(),
{
    if segs.len() == 1 {
        lemma_segments_of_one(segs[0]);
        assert(segments(join(segs)) =~= segs);
    } else {
        let front = segs.drop_last();
        assert(separator_free(front)) by {
            assert forall|i: int| 0 <= i < front.len() implies !(#[trigger] front[i]).contains(
                '/',
            ) by {
                assert(front[i] == segs[i]);
            }
        }
        lemma_segments_of_join(front);
        lemma_segments_of_one(segs.last());
        lemma_segments_of_joined(join(front), segs.last());
        assert(segments(join(segs)) =~= segs);
    }
}

/// The shape, where it stands among some segments, stands among them
/// still when other segments come before or after.
pub proof fn lemma_shape_among_more(
    before: Seq<Seq<char>>,
    segs: Seq<Seq<char>>,
    after: Seq<Seq<char>>,
    at: int,
)
    requires
        shape_at(segs, at),
    ensures
        shape_at(before + segs + after, before.len() + at),
{
    let all = before + segs + after;
    let to = before.len() + at;
    assert forall|i: int| 0 <= i < segs.len() implies all[before.len() + i] == segs[i] by {}
    assert(all[to] == segs[at]);
    assert(all[to + 1] == segs[at + 1]);
    assert(all[to + 2] == segs[at + 2]);
    assert(all[to + 3] == segs[at + 3]);
    if !is_leaf(segs[at + 3]) {
        assert(action_log_at(segs, at + 3));
        assert(all[to + 4] == segs[at + 4]);
        assert(all[to + 5] == segs[at + 5]);
        assert(all[to + 6] == segs[at + 6]);
        assert(action_log_at(all, to + 3));
    }
}

/// A key of an intermediate file stays one below any folder: what is
/// written before it, up to a `/`, does not matter.
pub proof fn lemma_prefix_does_not_matter(prefix: Seq<char>, key: Seq<char>)
    requires
        is_intermediate_key(key),
    ensures
        is_intermediate_key(prefix + seq!['/'] + key),
{
    let at = choose|at: int| shape_at(segments(key), at);
    lemma_segments_of_joined(prefix, key);
    lemma_shape_among_more(segments(prefix), segments(key), Seq::empty(), at);
    assert(segments(prefix) + segments(key) + Seq::<Seq<char>>::empty() =~= segments(prefix)
        + segments(key));
    assert(shape_at(segments(prefix + seq!['/'] + key), segments(prefix).len() + at));
}

/// Nor does it matter what follows the key after a `/`.
pub proof fn lemma_suffix_does_not_matter(key: Seq<char>, suffix: Seq<char>)
    requires
        is_intermediate_key(key),
    ensures
        is_intermediate_key(key + seq!['/'] + suffix),
{
    let at = choose|at: int| shape_at(segments(key), at);
    lemma_segments_of_joined(key, suffix);
    lemma_shape_among_more(Seq::empty(), segments(key), segments(suffix), at);
    assert(Seq::<Seq<char>>::empty() + segments(key) + segments(suffix) =~= segments(key)
        + segments(suffix));
    assert(shape_at(segments(key + seq!['/'] + suffix), at));
}

} // verus!
