//! A streaming filter that turns raw terminal output into a transcript:
//! graphic-rendition sequences are kept, every other control sequence,
//! carriage returns, repeated newlines and the console's input prompt
//! marker are dropped.
use vstd::prelude::*;

verus! {

/// Introducer of a control sequence.
pub const ESC: u8 = 0x1b;

/// Second byte of a control sequence introducer.
pub const CSI_OPEN: u8 = 0x5b;

/// Terminator of a graphic-rendition (color and style) sequence.
pub const SGR_FINAL: u8 = 0x6d;

/// First byte of the prompt marker the console echoes at the start of a line.
pub const PROMPT: u8 = 0x3e;

pub const SPACE: u8 = 0x20;

pub const CR: u8 = 0x0d;

pub const LF: u8 = 0x0a;

/// A byte that ends a control sequence.
pub open spec fn is_final_byte(b: u8) -> bool {
    0x40 <= b && b <= 0x7e
}

/// The index just past the first final byte at or after `j`, or the length
/// of `data` when no final byte follows.
pub open spec fn csi_end(data: Seq<u8>, j: int) -> int
    decreases data.len() - j,
{
    if j < 0 || j >= data.len() {
        data.len() as int
    } else if is_final_byte(data[j]) {
        j + 1
    } else {
        csi_end(data, j + 1)
    }
}

pub proof fn lemma_csi_end_bounds(data: Seq<u8>, j: int)
    requires
        0 <= j <= data.len(),
    ensures
        j <= csi_end(data, j) <= data.len(),
        csi_end(data, j) == data.len() || (j < csi_end(data, j) && is_final_byte(
            data[csi_end(data, j) - 1],
        )),
    decreases data.len() - j,
{
    if j < data.len() && !is_final_byte(data[j]) {
        lemma_csi_end_bounds(data, j + 1);
    }
}

/// Whether a prompt marker starts at `i` while the transcript is at the start of a line.
pub open spec fn prompt_at(data: Seq<u8>, i: int, at_line_start: bool) -> bool {
    at_line_start && 0 <= i && i + 1 < data.len() && data[i] == PROMPT && data[i + 1] == SPACE
}

/// Whether a control sequence introducer starts at `i`.
pub open spec fn csi_at(data: Seq<u8>, i: int) -> bool {
    0 <= i && i + 1 < data.len() && data[i] == ESC && data[i + 1] == CSI_OPEN
}

/// The transcript produced from `data[i..]` when the filter is in state
/// `at_line_start`, paired with the state afterwards.
///
/// A control sequence that is not terminated within `data` is dropped whole.
pub open spec fn filter_from(data: Seq<u8>, i: int, at_line_start: bool) -> (Seq<u8>, bool)
    decreases data.len() - i,
{
    if i < 0 || i >= data.len() {
        (Seq::empty(), at_line_start)
    } else if prompt_at(data, i, at_line_start) {
        let k = if i + 2 < data.len() && data[i + 2] == LF {
            i + 3
        } else {
            i + 2
        };
        filter_from(data, k, at_line_start)
    } else if csi_at(data, i) {
        let k = csi_end(data, i + 2);
        proof {
            lemma_csi_end_bounds(data, i + 2);
        }
        if data[k - 1] == SGR_FINAL {
            let rest = filter_from(data, k, false);
            (data.subrange(i, k) + rest.0, rest.1)
        } else {
            filter_from(data, k, at_line_start)
        }
    } else if data[i] == CR {
        filter_from(data, i + 1, at_line_start)
    } else if data[i] == LF {
        let rest = filter_from(data, i + 1, true);
        if at_line_start {
            rest
        } else {
            (seq![LF] + rest.0, rest.1)
        }
    } else {
        let rest = filter_from(data, i + 1, false);
        (seq![data[i]] + rest.0, rest.1)
    }
}

/// The transcript of one chunk of terminal output.
pub open spec fn transcript(data: Seq<u8>, at_line_start: bool) -> Seq<u8> {
    filter_from(data, 0, at_line_start).0
}

/// Whether the filter is at the start of a line after one chunk.
pub open spec fn ends_at_line_start(data: Seq<u8>, at_line_start: bool) -> bool {
    filter_from(data, 0, at_line_start).1
}

/// Index of the first final byte at or after `j`, plus one; `data.len()` when there is none.
fn find_csi_end(data: &[u8], j: usize) -> (k: usize)
    requires
        j <= data@.len(),
    ensures
        k == csi_end(data@, j as int),
{
    let mut k = j;
    while k < data.len()
        invariant
            j <= k <= data@.len(),
            csi_end(data@, j as int) == csi_end(data@, k as int),
        decreases data@.len() - k,
    {
        if 0x40 <= data[k] && data[k] <= 0x7e {
            return k + 1;
        }
        k = k + 1;
    }
    k
}

/// Filters one chunk of terminal output for the transcript, carrying
/// whether the transcript is at the start of a line across chunks.
///
/// The state is true exactly when nothing has been written on the current
/// transcript line: a newline is written only when it is false, and the
/// prompt marker is recognised only when it is true.
pub fn sanitize(data: &[u8], at_line_start: &mut bool) -> (out: Vec<u8>)
    ensures
        out@ == transcript(data@, *old(at_line_start)),
        *final(at_line_start) == ends_at_line_start(data@, *old(at_line_start)),
{
    let ghost start = *at_line_start;
    let mut out: Vec<u8> = Vec::new();
    let mut i: usize = 0;
    let n = data.len();
    while i < n
        invariant
            n == data@.len(),
            0 <= i <= n,
            out@ + filter_from(data@, i as int, *at_line_start).0 == transcript(data@, start),
            filter_from(data@, i as int, *at_line_start).1 == ends_at_line_start(data@, start),
        decreases n - i,
    {
        let ghost d = data@;
        let ghost st = *at_line_start;
        let ghost before = out@;
        if *at_line_start && i + 1 < n && data[i] == PROMPT && data[i + 1] == SPACE {
            i = i + 2;
            if i < n && data[i] == LF {
                i = i + 1;
            }
        } else if data[i] == ESC && i + 1 < n && data[i + 1] == CSI_OPEN {
            let k = find_csi_end(data, i + 2);
            proof {
                lemma_csi_end_bounds(d, i + 2);
            }
            if data[k - 1] == SGR_FINAL {
                let mut j = i;
                while j < k
                    invariant
                        i <= j <= k <= n,
                        n == data@.len(),
                        out@ == before + data@.subrange(i as int, j as int),
                    decreases k - j,
                {
                    out.push(data[j]);
                    j = j + 1;
                    assert(out@ =~= before + data@.subrange(i as int, j as int));
                }
                *at_line_start = false;
                assert(before + d.subrange(i as int, k as int) + filter_from(d, k as int, false).0
                    =~= before + (d.subrange(i as int, k as int) + filter_from(d, k as int, false).0));
            }
            i = k;
        } else if data[i] == CR {
            i = i + 1;
        } else if data[i] == LF {
            if !*at_line_start {
                out.push(LF);
                assert(before + seq![LF] + filter_from(d, i + 1, true).0
                    =~= before + (seq![LF] + filter_from(d, i + 1, true).0));
            }
            *at_line_start = true;
            i = i + 1;
        } else {
            out.push(data[i]);
            assert(before + seq![d[i as int]] + filter_from(d, i + 1, false).0
                =~= before + (seq![d[i as int]] + filter_from(d, i + 1, false).0));
            *at_line_start = false;
            i = i + 1;
        }
    }
    assert(filter_from(data@, i as int, *at_line_start).0 =~= Seq::<u8>::empty());
    assert(out@ + Seq::<u8>::empty() =~= out@);
    out
}

/// Filters a single chunk on its own, starting at the beginning of a line.
pub fn filter_for_log(data: &[u8]) -> (out: Vec<u8>)
    ensures
        out@ == transcript(data@, true),
{
    let mut at_line_start = true;
    sanitize(data, &mut at_line_start)
}

/// `s` with every carriage return removed.
pub open spec fn without_cr(s: Seq<u8>) -> Seq<u8>
    decreases s.len(),
{
    if s.len() == 0 {
        s
    } else if s[0] == CR {
        without_cr(s.drop_first())
    } else {
        seq![s[0]] + without_cr(s.drop_first())
    }
}

/// `s` with each run of newlines reduced to one; a run at the very start is
/// dropped when the transcript is already at the start of a line.
pub open spec fn collapse_newlines(s: Seq<u8>, at_line_start: bool) -> Seq<u8>
    decreases s.len(),
{
    if s.len() == 0 {
        s
    } else if s[0] == LF {
        if at_line_start {
            collapse_newlines(s.drop_first(), true)
        } else {
            seq![LF] + collapse_newlines(s.drop_first(), true)
        }
    } else {
        seq![s[0]] + collapse_newlines(s.drop_first(), false)
    }
}

/// Output that holds neither a control sequence introducer nor a prompt marker.
pub open spec fn is_plain_text(data: Seq<u8>) -> bool {
    &&& forall|i: int| 0 <= i < data.len() ==> data[i] != ESC
    &&& forall|i: int| 0 <= i < data.len() - 1 ==> !(#[trigger] data[i] == PROMPT && data[i + 1] == SPACE)
}

proof fn lemma_plain_suffix(data: Seq<u8>, i: int, at_line_start: bool)
    requires
        is_plain_text(data),
        0 <= i <= data.len(),
    ensures
        filter_from(data, i, at_line_start).0 == collapse_newlines(
            without_cr(data.subrange(i, data.len() as int)),
            at_line_start,
        ),
    decreases data.len() - i,
{
    let t = data.subrange(i, data.len() as int);
    if i < data.len() {
        assert(t.drop_first() =~= data.subrange(i + 1, data.len() as int));
        assert(t[0] == data[i]);
        assert(!prompt_at(data, i, at_line_start)) by {
            if i + 1 < data.len() {
                assert(!(data[i] == PROMPT && data[i + 1] == SPACE));
            }
        }
        assert(!csi_at(data, i));
        let rest_plain = without_cr(t.drop_first());
        if data[i] == CR {
            lemma_plain_suffix(data, i + 1, at_line_start);
        } else if data[i] == LF {
            lemma_plain_suffix(data, i + 1, true);
            assert((seq![LF] + rest_plain)[0] == LF);
            assert((seq![LF] + rest_plain).drop_first() =~= rest_plain);
        } else {
            lemma_plain_suffix(data, i + 1, false);
            assert((seq![data[i]] + rest_plain)[0] == data[i]);
            assert((seq![data[i]] + rest_plain).drop_first() =~= rest_plain);
        }
    } else {
        assert(t =~= Seq::<u8>::empty());
    }
}

/// Output without control sequences or prompt markers reaches the transcript
/// unchanged, except that carriage returns are removed and runs of newlines
/// are collapsed to one.
pub proof fn law_plain_text_kept(data: Seq<u8>, at_line_start: bool)
    requires
        is_plain_text(data),
    ensures
        transcript(data, at_line_start) == collapse_newlines(without_cr(data), at_line_start),
{
    lemma_plain_suffix(data, 0, at_line_start);
    assert(data.subrange(0, data.len() as int) =~= data);
}

/// A complete control sequence: introducer, parameter bytes, one final byte.
pub open spec fn is_control_sequence(c: Seq<u8>) -> bool {
    &&& c.len() >= 3
    &&& c[0] == ESC
    &&& c[1] == CSI_OPEN
    &&& forall|k: int| 2 <= k < c.len() - 1 ==> !is_final_byte(c[k])
    &&& is_final_byte(c[c.len() - 1])
}

proof fn lemma_csi_end_shift(p: Seq<u8>, r: Seq<u8>, j: int)
    requires
        0 <= j <= r.len(),
    ensures
        csi_end(p + r, p.len() + j) == p.len() + csi_end(r, j),
    decreases r.len() - j,
{
    let d = p + r;
    if j < r.len() {
        assert(d[p.len() + j] == r[j]);
        if !is_final_byte(r[j]) {
            lemma_csi_end_shift(p, r, j + 1);
        }
    }
}

proof fn lemma_filter_shift(p: Seq<u8>, r: Seq<u8>, j: int, at_line_start: bool)
    requires
        0 <= j <= r.len(),
    ensures
        filter_from(p + r, p.len() + j, at_line_start) == filter_from(r, j, at_line_start),
    decreases r.len() - j,
{
    let d = p + r;
    let i = p.len() + j;
    if j < r.len() {
        assert(d[i] == r[j]);
        if j + 1 < r.len() {
            assert(d[i + 1] == r[j + 1]);
        }
        if j + 2 < r.len() {
            assert(d[i + 2] == r[j + 2]);
        }
        if prompt_at(r, j, at_line_start) {
            if j + 2 < r.len() && r[j + 2] == LF {
                lemma_filter_shift(p, r, j + 3, at_line_start);
            } else {
                lemma_filter_shift(p, r, j + 2, at_line_start);
            }
        } else if csi_at(r, j) {
            lemma_csi_end_bounds(r, j + 2);
            lemma_csi_end_shift(p, r, j + 2);
            let k = csi_end(r, j + 2);
            assert(d[p.len() + k - 1] == r[k - 1]);
            lemma_filter_shift(p, r, k, false);
            lemma_filter_shift(p, r, k, at_line_start);
            assert(d.subrange(i, p.len() + k) =~= r.subrange(j, k));
        } else if r[j] == LF {
            lemma_filter_shift(p, r, j + 1, true);
        } else if r[j] == CR {
            lemma_filter_shift(p, r, j + 1, at_line_start);
        } else {
            lemma_filter_shift(p, r, j + 1, false);
        }
    }
}

proof fn lemma_csi_end_of_sequence(c: Seq<u8>, rest: Seq<u8>, j: int)
    requires
        is_control_sequence(c),
        2 <= j < c.len(),
    ensures
        csi_end(c + rest, j) == c.len(),
    decreases c.len() - j,
{
    let d = c + rest;
    assert(d[j] == c[j]);
    if j < c.len() - 1 {
        lemma_csi_end_of_sequence(c, rest, j + 1);
    }
}

/// A graphic-rendition sequence reaches the transcript byte for byte; any
/// other control sequence (cursor movement, erasing, scrolling, saving or
/// restoring the position) leaves no byte in it.
pub proof fn law_control_sequences(c: Seq<u8>, rest: Seq<u8>, at_line_start: bool)
    requires
        is_control_sequence(c),
    ensures
        c[c.len() - 1] == SGR_FINAL ==> transcript(c + rest, at_line_start) == c + transcript(
            rest,
            false,
        ),
        c[c.len() - 1] != SGR_FINAL ==> transcript(c + rest, at_line_start) == transcript(
            rest,
            at_line_start,
        ),
{
    let d = c + rest;
    assert(d[0] == ESC && d[1] == CSI_OPEN);
    assert(csi_at(d, 0));
    assert(!prompt_at(d, 0, at_line_start));
    lemma_csi_end_of_sequence(c, rest, 2);
    assert(d[c.len() - 1] == c[c.len() - 1]);
    lemma_filter_shift(c, rest, 0, false);
    lemma_filter_shift(c, rest, 0, at_line_start);
    assert(d.subrange(0, c.len() as int) =~= c);
}

} // verus!
