use vstd::prelude::*;
use vstd::utf8::{decode_utf8, encode_utf8, encode_utf8_decode_utf8, encode_utf8_valid_utf8, is_char_boundary, valid_utf8};

use crate::guardrails::context::utf8_len;
use crate::text::{concat, concat3, decimal, decimal_usize};

verus! {

/// The note appended to a truncated tool output.
pub open spec fn truncation_note(max: nat) -> Seq<char> {
    "\n\n[...output truncated by guardrail: exceeded "@ + decimal(max) + " characters limit...]"@
}

/// The text reported when a tool does not finish in time.
pub open spec fn timeout_text(secs: nat) -> Seq<char> {
    "Tool execution timed out after "@ + decimal(secs) + " seconds"@
}

/// The last character boundary of `bytes` at or before `i` (0 when there is none above it).
pub open spec fn boundary_at_or_before(bytes: Seq<u8>, i: int) -> int
    decreases i,
{
    if i <= 0 {
        0
    } else if is_char_boundary(bytes, i) {
        i
    } else {
        boundary_at_or_before(bytes, i - 1)
    }
}

/// Timeout and output size limits for tool execution.
#[derive(Debug, Clone, Copy)]
pub struct ToolGuardrail {
    /// The execution time limit, in whole seconds.
    pub execution_timeout_secs: u64,
    pub max_output_chars: usize,
}

impl ToolGuardrail {
    /// A guardrail with the given timeout (seconds) and output limit (bytes).
    pub fn new(timeout_secs: u64, max_output_chars: usize) -> (g: Self)
        ensures
            g.execution_timeout_secs == timeout_secs,
            g.max_output_chars == max_output_chars,
    {
        ToolGuardrail { execution_timeout_secs: timeout_secs, max_output_chars }
    }

    /// The default limits: 15 seconds, 8,000 bytes of output.
    pub fn default_limits() -> (g: Self)
        ensures
            g.execution_timeout_secs == 15,
            g.max_output_chars == 8_000,
    {
        ToolGuardrail { execution_timeout_secs: 15, max_output_chars: 8_000 }
    }

    /// How many bytes of an over-long output are kept.
    pub open spec fn keep_len(&self) -> int {
        if self.max_output_chars >= 100 {
            self.max_output_chars - 100
        } else {
            0
        }
    }

    /// Where an over-long output is cut: the last character boundary at or before `keep_len`.
    pub open spec fn cut_point(&self, output: Seq<char>) -> int {
        boundary_at_or_before(encode_utf8(output), self.keep_len())
    }

    /// The output after the size limit is applied.
    pub open spec fn sanitized(&self, output: Seq<char>) -> Seq<char> {
        if utf8_len(output) <= self.max_output_chars {
            output
        } else {
            decode_utf8(encode_utf8(output).subrange(0, self.cut_point(output)))
                + truncation_note(self.max_output_chars as nat)
        }
    }

    /// Truncates an output over the limit to at most `max_output_chars - 100` bytes, cutting
    /// at the last character boundary there, and appends a note.
    pub fn sanitize_output(&self, output: String) -> (r: String)
        ensures
            r@ == self.sanitized(output@),
    {
        if output.as_str().len() <= self.max_output_chars {
            output
        } else {
            let keep_len = self.max_output_chars.saturating_sub(100);
            let ghost bytes = encode_utf8(output@);
            proof {
                encode_utf8_valid_utf8(output@);
            }
            let mut cut = keep_len;
            while cut > 0 && !output.as_str().is_char_boundary(cut)
                invariant
                    cut <= keep_len,
                    keep_len < bytes.len(),
                    bytes == encode_utf8(output@),
                    valid_utf8(bytes),
                    boundary_at_or_before(bytes, keep_len as int) == boundary_at_or_before(bytes, cut as int),
                decreases cut,
            {
                cut = cut - 1;
            }
            proof {
                if cut == 0 {
                    assert(is_char_boundary(bytes, 0));
                }
            }
            let (truncated, _) = output.as_str().split_at(cut);
            proof {
                encode_utf8_decode_utf8(truncated@);
            }
            let note = concat3(
                "\n\n[...output truncated by guardrail: exceeded ",
                decimal_usize(self.max_output_chars).as_str(),
                " characters limit...]",
            );
            concat(truncated, note.as_str())
        }
    }

    /// The outcome of a tool run under this guardrail: a finished run's output is
    /// sanitized, a tool error passes through, and a run that timed out (`None`) is
    /// reported as a timeout.
    pub fn settle_execution(&self, outcome: Option<Result<String, String>>) -> (r: Result<String, String>)
        ensures
            match outcome {
                Some(Ok(out)) => r matches Ok(o) && o@ == self.sanitized(out@),
                Some(Err(e)) => r matches Err(x) && x@ == e@,
                None => r matches Err(x) && x@ == timeout_text(self.execution_timeout_secs as nat),
            },
    {
        match outcome {
            Some(Ok(output)) => Ok(self.sanitize_output(output)),
            Some(Err(e)) => Err(e),
            None => Err(concat3(
                "Tool execution timed out after ",
                crate::text::decimal_string(self.execution_timeout_secs).as_str(),
                " seconds",
            )),
        }
    }
}

impl Default for ToolGuardrail {
    fn default() -> (g: Self)
        ensures
            g.execution_timeout_secs == 15,
            g.max_output_chars == 8_000,
    {
        Self::default_limits()
    }
}

/// The UTF-8 encoding of a concatenation is the concatenation of the encodings.
proof fn lemma_encode_concat(a: Seq<char>, b: Seq<char>)
    ensures
        encode_utf8(a + b) == encode_utf8(a) + encode_utf8(b),
    decreases a.len(),
{
    if a.len() == 0 {
        assert(a + b =~= b);
        assert(encode_utf8(a) =~= Seq::<u8>::empty());
        assert(encode_utf8(a) + encode_utf8(b) =~= encode_utf8(b));
    } else {
        assert((a + b).drop_first() =~= a.drop_first() + b);
        assert((a + b)[0] == a[0]);
        lemma_encode_concat(a.drop_first(), b);
        assert(encode_utf8(a + b) =~= encode_utf8(a) + encode_utf8(b));
    }
}

/// Text of ASCII characters takes one byte per character.
proof fn lemma_ascii_len(s: Seq<char>)
    requires
        forall|i: int| 0 <= i < s.len() ==> (#[trigger] s[i] as u32) < 0x80,
    ensures
        encode_utf8(s).len() == s.len(),
    decreases s.len(),
{
    if s.len() > 0 {
        assert(s[0] as u32 <= 0x7F);
        assert forall|i: int| 0 <= i < s.drop_first().len() implies (#[trigger] s.drop_first()[i] as u32) < 0x80 by {
            assert(s.drop_first()[i] == s[i + 1]);
        }
        lemma_ascii_len(s.drop_first());
    }
}

/// Ten to the power `d`.
spec fn pow10(d: nat) -> nat
    decreases d,
{
    if d == 0 { 1 } else { 10 * pow10((d - 1) as nat) }
}

/// A number below `10^d` has at most `d` decimal digits (at least one), all of them ASCII.
proof fn lemma_decimal_digits(n: nat, d: nat)
    requires
        n < pow10(d),
        d >= 1,
    ensures
        decimal(n).len() <= d,
        forall|i: int| 0 <= i < decimal(n).len() ==> (#[trigger] decimal(n)[i] as u32) < 0x80,
    decreases n,
{
    if n >= 10 {
        let p = pow10((d - 1) as nat);
        assert(d >= 2) by {
            if d == 1 {
                assert(pow10(1) == 10 * pow10(0));
            }
        }
        assert(n / 10 < p) by (nonlinear_arith)
            requires
                n < 10 * p,
        ;
        lemma_decimal_digits(n / 10, (d - 1) as nat);
        let q = decimal(n / 10);
        assert forall|i: int| 0 <= i < decimal(n).len() implies (#[trigger] decimal(n)[i] as u32) < 0x80 by {
            if i < q.len() {
                assert(decimal(n)[i] == q[i]);
            }
        }
    }
}

/// The truncation note takes 67 bytes plus the digits of the limit, at most 87 bytes.
proof fn lemma_note_len(max: usize)
    ensures
        encode_utf8(truncation_note(max as nat)).len() <= 87,
{
    let a = "\n\n[...output truncated by guardrail: exceeded "@;
    let c = " characters limit...]"@;
    reveal_strlit("\n\n[...output truncated by guardrail: exceeded ");
    reveal_strlit(" characters limit...]");
    assert(pow10(20) == 100000000000000000000nat) by {
        reveal_with_fuel(pow10, 21);
    }
    lemma_decimal_digits(max as nat, 20);
    let dg = decimal(max as nat);
    let note = a + dg + c;
    assert(note == truncation_note(max as nat));
    assert forall|i: int| 0 <= i < note.len() implies (#[trigger] note[i] as u32) < 0x80 by {
        if i < a.len() {
            assert(note[i] == a[i]);
        } else if i < a.len() + dg.len() {
            assert(note[i] == dg[i - a.len()]);
        } else {
            assert(note[i] == c[i - a.len() - dg.len()]);
        }
    }
    lemma_ascii_len(note);
}

/// Where the cut falls: a character boundary no later than the requested position.
proof fn lemma_boundary_at_or_before(bytes: Seq<u8>, i: int)
    requires
        valid_utf8(bytes),
    ensures
        0 <= boundary_at_or_before(bytes, i) <= if i >= 0 { i } else { 0 },
        is_char_boundary(bytes, boundary_at_or_before(bytes, i)),
    decreases i,
{
    if i > 0 && !is_char_boundary(bytes, i) {
        lemma_boundary_at_or_before(bytes, i - 1);
    }
}

/// With a limit of at least 100 bytes, a sanitized output fits the limit, and sanitizing it
/// again changes nothing.
pub proof fn law_sanitize_fits_and_is_idempotent(g: ToolGuardrail, output: Seq<char>)
    requires
        g.max_output_chars >= 100,
    ensures
        utf8_len(g.sanitized(output)) <= g.max_output_chars,
        g.sanitized(g.sanitized(output)) == g.sanitized(output),
{
    if utf8_len(output) > g.max_output_chars {
        let bytes = encode_utf8(output);
        encode_utf8_valid_utf8(output);
        let cut = g.cut_point(output);
        lemma_boundary_at_or_before(bytes, g.keep_len());
        vstd::utf8::valid_utf8_split(bytes, cut);
        let head = decode_utf8(bytes.subrange(0, cut));
        vstd::utf8::decode_utf8_encode_utf8(bytes.subrange(0, cut));
        let note = truncation_note(g.max_output_chars as nat);
        lemma_encode_concat(head, note);
        lemma_note_len(g.max_output_chars);
        assert(encode_utf8(head).len() == cut);
        assert(encode_utf8(note).len() <= 87);
        assert(g.sanitized(output) == head + note);
        assert(encode_utf8(head + note).len() == cut + encode_utf8(note).len());
        assert(cut <= g.max_output_chars - 100);
        assert(utf8_len(head + note) <= g.max_output_chars);
    }
}

} // verus!
