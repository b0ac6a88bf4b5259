//! Result records for processed uploads and the JSON report they are
//! rendered into, with a character-exact specification of the output.

use crate::geometry::Dimensions;
use crate::strings::{chars_of, push_char};
use vstd::prelude::*;
use vstd::string::StringExecFns;

verus! {

/// Geometry and byte footprint of one encoding of an image.
#[derive(Clone, Copy, Debug, PartialEq, Eq, Structural)]
pub struct ImageMetrics {
    pub dims: Dimensions,
    pub bytes: u64,
}

impl ImageMetrics {
    /// Positive dimensions, and a byte count small enough that any
    /// difference of two counts fits a signed 64-bit delta.
    pub open spec fn wf(self) -> bool {
        self.dims.wf() && self.bytes < 0x8000_0000_0000_0000u64
    }
}

/// The outcome of fully processing one uploaded part.
#[derive(Clone, Debug)]
pub struct UploadResult {
    /// The client-declared filename, as raw ASCII bytes from the wire.
    pub filename: Vec<u8>,
    pub original: ImageMetrics,
    pub optimized: ImageMetrics,
    /// `original.bytes - optimized.bytes`; negative when re-encoding grew
    /// the file.
    pub bytes_saved: i64,
}

impl UploadResult {
    pub open spec fn wf(self) -> bool {
        &&& self.original.wf()
        &&& self.optimized.wf()
        &&& self.bytes_saved == self.original.bytes - self.optimized.bytes
    }
}

/// Assembles a result record; the byte delta is always exactly the
/// difference of the two measured counts.
pub fn make_result(filename: Vec<u8>, original: ImageMetrics, optimized: ImageMetrics) -> (r:
    UploadResult)
    requires
        original.wf(),
        optimized.wf(),
    ensures
        r.wf(),
        r.filename == filename,
        r.original == original,
        r.optimized == optimized,
        r.bytes_saved == original.bytes - optimized.bytes,
{
    let bytes_saved: i64 = original.bytes as i64 - optimized.bytes as i64;
    UploadResult { filename, original, optimized, bytes_saved }
}

/// The decimal digit character for `n`.
pub open spec fn spec_digit(n: int) -> char
    recommends
        0 <= n < 10,
{
    if n == 0 {
        '0'
    } else if n == 1 {
        '1'
    } else if n == 2 {
        '2'
    } else if n == 3 {
        '3'
    } else if n == 4 {
        '4'
    } else if n == 5 {
        '5'
    } else if n == 6 {
        '6'
    } else if n == 7 {
        '7'
    } else if n == 8 {
        '8'
    } else {
        '9'
    }
}

/// The decimal representation of a natural number, without leading zeros.
pub open spec fn spec_dec(n: nat) -> Seq<char>
    decreases n,
{
    if n < 10 {
        seq![spec_digit(n as int)]
    } else {
        spec_dec(n / 10) + seq![spec_digit((n % 10) as int)]
    }
}

/// The decimal representation of an integer, with a leading minus sign when
/// negative.
pub open spec fn spec_int_dec(n: int) -> Seq<char> {
    if n < 0 {
        seq!['-'] + spec_dec((-n) as nat)
    } else {
        spec_dec(n as nat)
    }
}

fn digit_char(d: u64) -> (c: char)
    requires
        d < 10,
    ensures
        c == spec_digit(d as int),
{
    match d {
        0 => '0',
        1 => '1',
        2 => '2',
        3 => '3',
        4 => '4',
        5 => '5',
        6 => '6',
        7 => '7',
        8 => '8',
        _ => '9',
    }
}

proof fn lemma_reverse_push(s: Seq<char>, x: char)
    ensures
        (s.push(x)).reverse() =~= seq![x] + s.reverse(),
{
}

/// Appends the decimal representation of `n`.
pub fn append_u64(out: &mut String, n: u64)
    ensures
        final(out)@ == old(out)@ + spec_dec(n as nat),
{
    let mut digits: Vec<char> = Vec::new();
    let mut m: u64 = n;
    proof {
        assert(spec_dec(n as nat) + digits@.reverse() =~= spec_dec(n as nat));
    }
    while m > 0
        invariant
            m <= n,
            n == 0 ==> digits@.len() == 0,
            m > 0 ==> spec_dec(n as nat) == spec_dec(m as nat) + digits@.reverse(),
            m == 0 && n > 0 ==> digits@.len() > 0 && spec_dec(n as nat) == digits@.reverse(),
        decreases m,
    {
        let d: u64 = m % 10;
        let next: u64 = m / 10;
        proof {
            lemma_reverse_push(digits@, spec_digit(d as int));
            let dc = spec_digit(d as int);
            if m >= 10 {
                assert(spec_dec(m as nat) == spec_dec((m as nat) / 10) + seq![
                    spec_digit(((m as nat) % 10) as int),
                ]);
                assert((m as nat) / 10 == next as nat && (m as nat) % 10 == d as nat);
                assert(spec_dec(next as nat) + (seq![dc] + digits@.reverse()) =~= (spec_dec(
                    next as nat,
                ) + seq![dc]) + digits@.reverse());
                assert(spec_dec(n as nat) == spec_dec(next as nat) + (digits@.push(
                    dc,
                )).reverse());
            } else {
                assert(spec_dec(m as nat) == seq![spec_digit(m as int)]);
                assert(next == 0);
                assert(seq![dc] + digits@.reverse() =~= (digits@.push(dc)).reverse());
                assert(spec_dec(n as nat) == (digits@.push(dc)).reverse());
            }
        }
        digits.push(digit_char(d));
        m = next;
    }
    if digits.len() == 0 {
        push_char(out, '0');
        proof {
            assert(spec_dec(0) == seq![spec_digit(0)]);
            assert(old(out)@ + seq!['0'] =~= old(out)@.push('0'));
        }
    } else {
        let ghost base = out@;
        let ghost rev = digits@.reverse();
        let mut i: usize = digits.len();
        while i > 0
            invariant
                i <= digits.len(),
                rev == digits@.reverse(),
                out@ == base + rev.take(digits@.len() - i),
            decreases i,
        {
            i = i - 1;
            push_char(out, digits[i]);
            proof {
                assert(rev[digits@.len() - 1 - i] == digits@[i as int]);
                assert(rev.take(digits@.len() - i) =~= rev.take(digits@.len() - (i + 1)).push(
                    rev[digits@.len() - 1 - i],
                ));
                assert(out@ =~= base + rev.take(digits@.len() - i));
            }
        }
        proof {
            assert(rev.take(digits@.len() as int) =~= rev);
        }
    }
}

/// Appends the decimal representation of `n`, with a minus sign when
/// negative.
pub fn append_i64(out: &mut String, n: i64)
    requires
        n > i64::MIN,
    ensures
        final(out)@ == old(out)@ + spec_int_dec(n as int),
{
    if n < 0 {
        push_char(out, '-');
        let mag: i64 = -n;
        append_u64(out, mag as u64);
        proof {
            assert(old(out)@.push('-') + spec_dec((mag as u64) as nat) =~= old(out)@ + (seq!['-']
                + spec_dec((-(n as int)) as nat)));
        }
    } else {
        append_u64(out, n as u64);
    }
}

/// How one character of a filename appears inside a JSON string literal:
/// quotes and backslashes gain a backslash escape.
pub open spec fn esc_char(c: char) -> Seq<char> {
    if c == '"' {
        seq!['\\', '"']
    } else if c == '\\' {
        seq!['\\', '\\']
    } else {
        seq![c]
    }
}

/// A character sequence escaped for inclusion in a JSON string literal.
pub open spec fn esc(s: Seq<char>) -> Seq<char>
    decreases s.len(),
{
    if s.len() == 0 {
        Seq::empty()
    } else {
        esc(s.drop_last()) + esc_char(s.last())
    }
}

/// Appends the bytes of `s` as characters, escaped for a JSON string
/// literal.
pub fn append_escaped(out: &mut String, s: &Vec<u8>)
    ensures
        final(out)@ == old(out)@ + esc(chars_of(s@)),
{
    let ghost base = out@;
    let mut i: usize = 0;
    while i < s.len()
        invariant
            i <= s.len(),
            out@ == base + esc(chars_of(s@.take(i as int))),
        decreases s.len() - i,
    {
        let c = s[i] as char;
        if c == '"' {
            push_char(out, '\\');
            push_char(out, '"');
        } else if c == '\\' {
            push_char(out, '\\');
            push_char(out, '\\');
        } else {
            push_char(out, c);
        }
        proof {
            let prev = chars_of(s@.take(i as int));
            let cur = chars_of(s@.take(i + 1 as int));
            assert(cur.drop_last() =~= prev);
            assert(cur.last() == s@[i as int] as char);
            assert(esc(cur) == esc(prev) + esc_char(s@[i as int] as char));
            assert(out@ =~= base + esc(cur));
        }
        i = i + 1;
    }
    proof {
        assert(s@.take(s@.len() as int) =~= s@);
    }
}

/// `"WxH"` for a pair of pixel dimensions.
pub open spec fn spec_dims_chars(d: Dimensions) -> Seq<char> {
    spec_dec(d.width as nat) + seq!['x'] + spec_dec(d.height as nat)
}

/// Appends `"WxH"` for the dimensions `d`.
pub fn append_dims(out: &mut String, d: Dimensions)
    ensures
        final(out)@ == old(out)@ + spec_dims_chars(d),
{
    append_u64(out, d.width as u64);
    push_char(out, 'x');
    append_u64(out, d.height as u64);
    proof {
        assert(old(out)@ + spec_dims_chars(d) =~= (old(out)@ + spec_dec(d.width as nat)).push('x')
            + spec_dec(d.height as nat));
    }
}

/// The JSON object rendered for one result record.
pub open spec fn spec_result_json(r: UploadResult) -> Seq<char> {
    "{\"file\":\""@ + esc(chars_of(r.filename@)) + "\",\"original_size\":\""@ + spec_dims_chars(
        r.original.dims,
    ) + "\",\"optimized_size\":\""@ + spec_dims_chars(r.optimized.dims)
        + "\",\"original_bytes\":"@ + spec_dec(r.original.bytes as nat)
        + ",\"optimized_bytes\":"@ + spec_dec(r.optimized.bytes as nat) + ",\"bytes_saved\":"@
        + spec_int_dec(r.bytes_saved as int) + "}"@
}

/// The JSON objects for `rs` from index `i` on, each preceded by a comma.
pub open spec fn spec_results_tail(rs: Seq<UploadResult>, i: int) -> Seq<char>
    decreases rs.len() - i,
{
    if i < 0 || i >= rs.len() {
        Seq::empty()
    } else {
        seq![','] + spec_result_json(rs[i]) + spec_results_tail(rs, i + 1)
    }
}

/// The complete JSON report for an ordered sequence of results: an array
/// with one object per processed part, in input order.
pub open spec fn spec_report_json(rs: Seq<UploadResult>) -> Seq<char> {
    if rs.len() == 0 {
        "[]"@
    } else {
        seq!['['] + spec_result_json(rs[0]) + spec_results_tail(rs, 1) + seq![']']
    }
}

fn append_result(out: &mut String, r: &UploadResult)
    requires
        r.bytes_saved > i64::MIN,
    ensures
        final(out)@ == old(out)@ + spec_result_json(*r),
{
    out.append("{\"file\":\"");
    append_escaped(out, &r.filename);
    out.append("\",\"original_size\":\"");
    append_dims(out, r.original.dims);
    out.append("\",\"optimized_size\":\"");
    append_dims(out, r.optimized.dims);
    out.append("\",\"original_bytes\":");
    append_u64(out, r.original.bytes);
    out.append(",\"optimized_bytes\":");
    append_u64(out, r.optimized.bytes);
    out.append(",\"bytes_saved\":");
    append_i64(out, r.bytes_saved);
    out.append("}");
    proof {
        assert(out@ =~= old(out)@ + spec_result_json(*r));
    }
}

/// Renders the JSON report for the ordered result records `rs`.
pub fn render_report(rs: &Vec<UploadResult>) -> (out: String)
    requires
        forall|k: int| 0 <= k < rs@.len() ==> (#[trigger] rs@[k]).wf(),
    ensures
        out@ == spec_report_json(rs@),
{
    if rs.len() == 0 {
        let mut out = String::new();
        out.append("[]");
        proof {
            assert(out@ =~= "[]"@);
        }
        out
    } else {
        let mut out = String::new();
        out.append("[");
        proof {
            reveal_strlit("[");
            assert(out@ =~= seq!['[']);
            assert(rs@[0].wf());
            assert(rs@[0].bytes_saved > i64::MIN);
        }
        append_result(&mut out, &rs[0]);
        let mut i: usize = 1;
        while i < rs.len()
            invariant
                1 <= i <= rs@.len(),
                forall|k: int| 0 <= k < rs@.len() ==> (#[trigger] rs@[k]).wf(),
                out@ + spec_results_tail(rs@, i as int) == seq!['['] + spec_result_json(rs@[0])
                    + spec_results_tail(rs@, 1),
            decreases rs.len() - i,
        {
            let ghost before = out@;
            out.append(",");
            proof {
                reveal_strlit(",");
                assert(out@ =~= before.push(','));
                assert(rs@[i as int].wf());
            }
            append_result(&mut out, &rs[i]);
            proof {
                assert(spec_results_tail(rs@, i as int) == seq![','] + spec_result_json(
                    rs@[i as int],
                ) + spec_results_tail(rs@, i + 1));
                assert(out@ + spec_results_tail(rs@, i + 1) =~= seq!['['] + spec_result_json(
                    rs@[0],
                ) + spec_results_tail(rs@, 1));
            }
            i = i + 1;
        }
        let ghost before_close = out@;
        out.append("]");
        proof {
            reveal_strlit("]");
            assert(out@ =~= before_close.push(']'));
            assert(spec_results_tail(rs@, rs@.len() as int) == Seq::<char>::empty());
            assert(out@ =~= seq!['['] + spec_result_json(rs@[0]) + spec_results_tail(rs@, 1)
                + seq![']']);
        }
        out
    }
}

} // verus!
