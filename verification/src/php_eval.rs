//! Preparing PHP source for evaluation: the byte-order mark and the open tag.
use vstd::prelude::*;

use crate::text::is_ascii_space;

verus! {

/// Why evaluating PHP code failed.
#[derive(Debug, Clone, Copy, PartialEq, Eq)]
pub enum PhpEvalError {
    /// The code does not start with a `<?php` open tag.
    MissingOpenTag,
    /// PHP failed to compile the code (syntax error).
    CompilationFailed,
    /// The code executed but threw an unhandled exception.
    ExecutionFailed,
    /// A PHP fatal error (bailout) occurred during execution.
    Bailout,
}

/// The message of an evaluation error.
pub open spec fn eval_error_message(e: PhpEvalError) -> Seq<char> {
    match e {
        PhpEvalError::MissingOpenTag => "PHP code must start with a <?php open tag"@,
        PhpEvalError::CompilationFailed => "PHP compilation failed (syntax error)"@,
        PhpEvalError::ExecutionFailed => "PHP execution threw an unhandled exception"@,
        PhpEvalError::Bailout => "PHP fatal error (bailout) during execution"@,
    }
}

impl PhpEvalError {
    /// The message of the error.
    pub fn message(&self) -> (r: &'static str)
        ensures
            r@ == eval_error_message(*self),
    {
        match self {
            PhpEvalError::MissingOpenTag => {
                proof { reveal_strlit("PHP code must start with a <?php open tag"); }
                "PHP code must start with a <?php open tag"
            },
            PhpEvalError::CompilationFailed => {
                proof { reveal_strlit("PHP compilation failed (syntax error)"); }
                "PHP compilation failed (syntax error)"
            },
            PhpEvalError::ExecutionFailed => {
                proof { reveal_strlit("PHP execution threw an unhandled exception"); }
                "PHP execution threw an unhandled exception"
            },
            PhpEvalError::Bailout => {
                proof { reveal_strlit("PHP fatal error (bailout) during execution"); }
                "PHP fatal error (bailout) during execution"
            },
        }
    }
}

/// Index of the first byte at or after `i` that is not ASCII whitespace
/// (`s.len()` when there is none).
pub open spec fn skip_ascii_space(s: Seq<u8>, i: int) -> int
    decreases s.len() - i,
{
    if i >= s.len() {
        s.len() as int
    } else if is_ascii_space(s[i]) {
        skip_ascii_space(s, i + 1)
    } else {
        i
    }
}

/// The ASCII lower-case of a byte.
pub open spec fn ascii_lower(b: u8) -> u8 {
    if 0x41 <= b <= 0x5A {
        (b + 0x20) as u8
    } else {
        b
    }
}

/// Whether `s` holds `<?php`, in any case, at `i`.
pub open spec fn php_tag_at(s: Seq<u8>, i: int) -> bool {
    &&& 0 <= i && i + 5 <= s.len()
    &&& s[i] == 0x3C
    &&& s[i + 1] == 0x3F
    &&& ascii_lower(s[i + 2]) == 0x70
    &&& ascii_lower(s[i + 3]) == 0x68
    &&& ascii_lower(s[i + 4]) == 0x70
}

/// The code without its UTF-8 byte-order mark.
pub open spec fn without_bom(s: Seq<u8>) -> Seq<u8> {
    if s.len() >= 3 && s[0] == 0xEF && s[1] == 0xBB && s[2] == 0xBF {
        s.subrange(3, s.len() as int)
    } else {
        s
    }
}

/// The code after its open tag and the whitespace around it; `None` when it
/// does not start, after whitespace, with `<?php`.
pub open spec fn after_open_tag(s: Seq<u8>) -> Option<Seq<u8>> {
    let p = skip_ascii_space(s, 0);
    if p < s.len() && php_tag_at(s, p) {
        Some(s.subrange(skip_ascii_space(s, p + 5), s.len() as int))
    } else {
        None
    }
}

proof fn lemma_skip_bounds(s: Seq<u8>, i: int)
    requires
        0 <= i <= s.len(),
    ensures
        i <= skip_ascii_space(s, i) <= s.len(),
    decreases s.len() - i,
{
    if i < s.len() && is_ascii_space(s[i]) {
        lemma_skip_bounds(s, i + 1);
    }
}

fn skip_space(code: &[u8], from: usize) -> (r: usize)
    requires
        from <= code@.len(),
    ensures
        r == skip_ascii_space(code@, from as int),
{
    let mut i = from;
    while i < code.len()
        invariant
            from <= i <= code@.len(),
            skip_ascii_space(code@, from as int) == skip_ascii_space(code@, i as int),
        decreases code.len() - i,
    {
        let b = code[i];
        if !(b == 0x20 || b == 0x09 || b == 0x0A || b == 0x0C || b == 0x0D) {
            return i;
        }
        i = i + 1;
    }
    i
}

fn lower(b: u8) -> (r: u8)
    ensures
        r == ascii_lower(b),
{
    if 0x41 <= b && b <= 0x5A {
        b + 0x20
    } else {
        b
    }
}

/// Strips a leading UTF-8 byte-order mark.
pub fn strip_bom(code: &[u8]) -> (r: &[u8])
    ensures
        r@ == without_bom(code@),
{
    if code.len() >= 3 && code[0] == 0xEF && code[1] == 0xBB && code[2] == 0xBF {
        code.split_at(3).1
    } else {
        code
    }
}

/// Strips the `<?php` open tag, matched in any case after leading whitespace,
/// together with the whitespace that follows it.
pub fn strip_php_open_tag(code: &[u8]) -> (r: Option<&[u8]>)
    ensures
        match r {
            Some(rest) => after_open_tag(code@) == Some(rest@),
            None => after_open_tag(code@) is None,
        },
{
    let p = skip_space(code, 0);
    proof {
        lemma_skip_bounds(code@, 0);
    }
    if p >= code.len() {
        return None;
    }
    if code.len() - p >= 5 && code[p] == 0x3C && code[p + 1] == 0x3F && lower(code[p + 2]) == 0x70
        && lower(code[p + 3]) == 0x68 && lower(code[p + 4]) == 0x70 {
        let q = skip_space(code, p + 5);
        proof {
            lemma_skip_bounds(code@, (p + 5) as int);
        }
        Some(code.split_at(q).1)
    } else {
        None
    }
}

/// The source that evaluating `code` compiles: the code after its byte-order
/// mark and its open tag; an error when the tag is missing. An empty source
/// is not compiled at all.
pub fn embedded_source(code: &[u8]) -> (r: Result<&[u8], PhpEvalError>)
    ensures
        match r {
            Ok(src) => after_open_tag(without_bom(code@)) == Some(src@),
            Err(e) => after_open_tag(without_bom(code@)) is None && e == PhpEvalError::MissingOpenTag,
        },
{
    match strip_php_open_tag(strip_bom(code)) {
        Some(src) => Ok(src),
        None => Err(PhpEvalError::MissingOpenTag),
    }
}

/// What evaluating compiled code reports: a bailout above all, then a failed
/// compilation, then an exception left pending; success otherwise.
pub fn evaluation_result(compiled: bool, exception_pending: bool, bailed_out: bool) -> (r: Result<(), PhpEvalError>)
    ensures
        bailed_out ==> r == Err::<(), PhpEvalError>(PhpEvalError::Bailout),
        !bailed_out && !compiled ==> r == Err::<(), PhpEvalError>(PhpEvalError::CompilationFailed),
        !bailed_out && compiled && exception_pending ==> r == Err::<(), PhpEvalError>(PhpEvalError::ExecutionFailed),
        !bailed_out && compiled && !exception_pending ==> r is Ok,
{
    if bailed_out {
        Err(PhpEvalError::Bailout)
    } else if !compiled {
        Err(PhpEvalError::CompilationFailed)
    } else if exception_pending {
        Err(PhpEvalError::ExecutionFailed)
    } else {
        Ok(())
    }
}

} // verus!
