//! The CUDA architecture version type: parsing of `MAJOR.MINOR[+PTX]` tokens
//! and synthesis of the `-gencode` compiler flag.

use vstd::prelude::*;

use crate::errors::BuildError;
use crate::strutil::{
    dec_str, dec_val, digit_val, is_dec_digits, is_digit, lemma_dec_str_val, lemma_dec_val_nonneg,
    str_eq, u32_to_dec_string,
};

verus! {

/// A CUDA compute-capability version. `with_ptx` marks an entry that also
/// embeds forward-compatible intermediate code.
#[derive(Debug, Clone, Copy, PartialEq, Eq, Structural, PartialOrd, Ord, Hash)]
pub struct CudaArch {
    pub major: u32,
    pub minor: u32,
    pub with_ptx: bool,
}

/// `s` ends in the literal `+PTX` suffix.
pub open spec fn is_ptx_suffix(s: Seq<char>) -> bool {
    s.len() >= 4 && s.subrange(s.len() - 4, s.len() as int) == "+PTX"@
}

/// Position `i` splits `b` into a non-empty digit run, a dot, and a
/// non-empty digit run.
pub open spec fn dot_at(b: Seq<char>, i: int) -> bool {
    &&& 1 <= i
    &&& i + 2 <= b.len()
    &&& b[i] == '.'
    &&& forall|k: int| 0 <= k < i ==> is_digit(#[trigger] b[k])
    &&& forall|k: int| i < k < b.len() ==> is_digit(#[trigger] b[k])
}

/// The token body (the token without a `+PTX` suffix) matches
/// `DIGITS . DIGITS`.
pub open spec fn arch_body_ok(b: Seq<char>) -> bool {
    exists|i: int| dot_at(b, i)
}

/// The position of the dot of a well-formed token body.
pub open spec fn arch_dot(b: Seq<char>) -> int {
    choose|i: int| dot_at(b, i)
}

/// At most one position can split a well-formed body.
pub proof fn lemma_dot_unique(b: Seq<char>, i: int, j: int)
    requires
        dot_at(b, i),
        dot_at(b, j),
    ensures
        i == j,
{
    if i < j {
        assert(is_digit(b[j]));
    }
    if j < i {
        assert(is_digit(b[i]));
    }
}

/// What a `MAJOR.MINOR[+PTX]` token denotes: `None` when the token does not
/// match the strict pattern or a number does not fit in 32 bits.
pub open spec fn spec_parse_arch(s: Seq<char>) -> Option<CudaArch> {
    let ptx = is_ptx_suffix(s);
    let b = if ptx {
        s.take(s.len() - 4)
    } else {
        s
    };
    if arch_body_ok(b) {
        let i = arch_dot(b);
        let maj = dec_val(b.take(i));
        let min = dec_val(b.skip(i + 1));
        if maj <= u32::MAX && min <= u32::MAX {
            Some(CudaArch { major: maj as u32, minor: min as u32, with_ptx: ptx })
        } else {
            None
        }
    } else {
        None
    }
}

/// The `-gencode` flag for an architecture: always compiled against the
/// `compute_*` virtual architecture; the code object is `compute_*` when PTX
/// is embedded and `sm_*` otherwise.
pub open spec fn spec_nvcc_flag(a: CudaArch) -> Seq<char> {
    let num = dec_str(a.major as int) + dec_str(a.minor as int);
    "-gencode=arch=compute_"@ + num + ",code="@ + (if a.with_ptx {
        "compute"@
    } else {
        "sm"@
    }) + "_"@ + num
}

/// The token without its `+PTX` suffix, if any.
pub open spec fn arch_body(s: Seq<char>) -> Seq<char> {
    if is_ptx_suffix(s) {
        s.take(s.len() - 4)
    } else {
        s
    }
}

/// The major digit run of a well-formed token.
pub open spec fn arch_major_digits(s: Seq<char>) -> Seq<char> {
    arch_body(s).take(arch_dot(arch_body(s)))
}

/// The minor digit run of a well-formed token.
pub open spec fn arch_minor_digits(s: Seq<char>) -> Seq<char> {
    arch_body(s).skip(arch_dot(arch_body(s)) + 1)
}

/// The canonical token for an architecture: decimal digits without leading
/// zeros, a dot, decimal digits, and the suffix when PTX is embedded.
pub open spec fn canonical_arch_token(major: u32, minor: u32, with_ptx: bool) -> Seq<char> {
    dec_str(major as int) + "."@ + dec_str(minor as int) + (if with_ptx {
        "+PTX"@
    } else {
        Seq::<char>::empty()
    })
}

/// Round trip, first half: every canonical token parses back to its
/// architecture, and the synthesized flag carries the very same major and
/// minor digit runs, concatenated after `compute_` and after the code kind.
pub proof fn lemma_arch_token_round_trip(major: u32, minor: u32, with_ptx: bool)
    ensures
        spec_parse_arch(canonical_arch_token(major, minor, with_ptx)) == Some(
            CudaArch { major, minor, with_ptx },
        ),
        spec_nvcc_flag(CudaArch { major, minor, with_ptx }) == "-gencode=arch=compute_"@ + dec_str(
            major as int,
        ) + dec_str(minor as int) + ",code="@ + (if with_ptx {
            "compute"@
        } else {
            "sm"@
        }) + "_"@ + dec_str(major as int) + dec_str(minor as int),
{
    reveal_strlit(".");
    reveal_strlit("+PTX");
    lemma_dec_str_val(major as int);
    lemma_dec_str_val(minor as int);
    let d1 = dec_str(major as int);
    let d2 = dec_str(minor as int);
    let s = canonical_arch_token(major, minor, with_ptx);
    let body = d1 + "."@ + d2;
    let i = d1.len() as int;
    assert(body[i] == '.');
    if with_ptx {
        assert(s.subrange(s.len() - 4, s.len() as int) =~= "+PTX"@);
        assert(is_ptx_suffix(s));
        assert(s.take(s.len() - 4) =~= body);
    } else {
        assert(s =~= body);
        if s.len() >= 4 {
            let tail = s.subrange(s.len() - 4, s.len() as int);
            assert(tail.len() == 4);
            assert(tail[3] == s[s.len() - 1]);
            assert(s[s.len() - 1] == d2.last());
            assert(is_digit(d2.last()));
            assert(tail != "+PTX"@) by {
                if tail == "+PTX"@ {
                    assert(tail[3] == 'X');
                }
            }
        }
        assert(!is_ptx_suffix(s));
    }
    let b = arch_body(s);
    assert(b == body);
    assert(dot_at(b, i)) by {
        assert(forall|k: int| 0 <= k < i ==> b[k] == #[trigger] d1[k]);
        assert(forall|k: int| i < k < b.len() ==> b[k] == #[trigger] d2[k - i - 1]);
    }
    lemma_dot_unique(b, arch_dot(b), i);
    assert(b.take(i) =~= d1);
    assert(b.skip(i + 1) =~= d2);
}

/// Round trip, second half: a token that parses, whose digit runs carry no
/// leading zeros, is exactly the canonical token of what it parses to; its
/// digit runs are exactly the runs the flag is built from.
pub proof fn lemma_arch_parse_canonical(s: Seq<char>, a: CudaArch)
    requires
        spec_parse_arch(s) == Some(a),
        crate::strutil::no_leading_zero(arch_major_digits(s)),
        crate::strutil::no_leading_zero(arch_minor_digits(s)),
    ensures
        s == canonical_arch_token(a.major, a.minor, a.with_ptx),
        arch_major_digits(s) == dec_str(a.major as int),
        arch_minor_digits(s) == dec_str(a.minor as int),
{
    reveal_strlit(".");
    let b = arch_body(s);
    let ptx = is_ptx_suffix(s);
    assert(arch_body_ok(b));
    let i = arch_dot(b);
    assert(dot_at(b, i));
    let d1 = b.take(i);
    let d2 = b.skip(i + 1);
    assert(is_dec_digits(d1)) by {
        assert(forall|k: int| 0 <= k < d1.len() ==> d1[k] == #[trigger] b[k]);
    }
    assert(is_dec_digits(d2)) by {
        assert(forall|k: int| 0 <= k < d2.len() ==> d2[k] == #[trigger] b[k + i + 1]);
    }
    crate::strutil::lemma_dec_str_of_val(d1);
    crate::strutil::lemma_dec_str_of_val(d2);
    assert(a.major as int == dec_val(d1) && a.minor as int == dec_val(d2));
    assert(dec_str(a.major as int) == d1);
    assert(dec_str(a.minor as int) == d2);
    assert(b =~= d1 + "."@ + d2) by {
        assert("."@.len() == 1 && "."@[0] == '.');
    }
    if ptx {
        assert(s =~= b + "+PTX"@);
        assert(s =~= canonical_arch_token(a.major, a.minor, a.with_ptx));
    } else {
        assert(s =~= canonical_arch_token(a.major, a.minor, a.with_ptx));
    }
}

/// Digit test, as executable code.
pub fn is_digit_exec(c: char) -> (r: bool)
    ensures
        r == is_digit(c),
{
    '0' <= c && c <= '9'
}

/// Numeric value of a digit character, as executable code.
pub fn digit_val_exec(c: char) -> (d: u32)
    requires
        is_digit(c),
    ensures
        d as int == digit_val(c),
{
    c as u32 - '0' as u32
}

/// `dec_val` never shrinks when a digit run is extended to the right.
pub proof fn lemma_dec_val_prefix_le(s: Seq<char>, k: int)
    requires
        forall|t: int| 0 <= t < s.len() ==> is_digit(#[trigger] s[t]),
        0 <= k <= s.len(),
    ensures
        dec_val(s.take(k)) <= dec_val(s),
    decreases s.len(),
{
    if k == s.len() {
        assert(s.take(k) =~= s);
    } else {
        let p = s.drop_last();
        assert(forall|t: int| 0 <= t < p.len() ==> is_digit(#[trigger] p[t])) by {
            assert(forall|t: int| 0 <= t < p.len() ==> p[t] == #[trigger] s[t]);
        }
        lemma_dec_val_prefix_le(p, k);
        assert(p.take(k) =~= s.take(k));
        lemma_dec_val_nonneg(p);
        assert(dec_val(s) == dec_val(p) * 10 + digit_val(s.last()));
        assert(digit_val(s.last()) >= 0);
        assert(dec_val(p) * 10 >= dec_val(p));
    }
}

/// Reads the digit run `text[from..to]` as a 32-bit number; `None` when the
/// value does not fit.
fn parse_digits_val(text: &str, from: usize, to: usize) -> (r: Option<u32>)
    requires
        from < to <= text@.len(),
        forall|k: int| from <= k < to ==> is_digit(#[trigger] text@[k]),
    ensures
        match r {
            Some(n) => n as int == dec_val(text@.subrange(from as int, to as int)),
            None => dec_val(text@.subrange(from as int, to as int)) > u32::MAX,
        },
{
    let mut acc: u64 = 0;
    let mut k: usize = from;
    proof {
        assert(text@.subrange(from as int, from as int) =~= Seq::<char>::empty());
    }
    while k < to
        invariant
            from <= k <= to <= text@.len(),
            forall|t: int| from <= t < to ==> is_digit(#[trigger] text@[t]),
            acc as int == dec_val(text@.subrange(from as int, k as int)),
            acc <= u32::MAX,
        decreases to - k,
    {
        let c = text.get_char(k);
        let d = digit_val_exec(c);
        acc = acc * 10 + d as u64;
        proof {
            let piece = text@.subrange(from as int, k + 1 as int);
            assert(piece.drop_last() =~= text@.subrange(from as int, k as int));
            assert(piece.last() == text@[k as int]);
        }
        k = k + 1;
        if acc > u32::MAX as u64 {
            proof {
                let whole = text@.subrange(from as int, to as int);
                assert(forall|t: int| 0 <= t < whole.len() ==> is_digit(#[trigger] whole[t]));
                lemma_dec_val_prefix_le(whole, k - from);
                assert(whole.take(k - from) =~= text@.subrange(from as int, k as int));
            }
            return None;
        }
    }
    Some(acc as u32)
}

impl CudaArch {
    /// Parses a `MAJOR.MINOR[+PTX]` token. Anything that does not match the
    /// strict pattern is rejected as an invalid architecture token.
    pub fn parse(text: &str) -> (r: Result<CudaArch, BuildError>)
        ensures
            match r {
                Ok(a) => spec_parse_arch(text@) == Some(a),
                Err(e) => {
                    &&& spec_parse_arch(text@) is None
                    &&& e matches BuildError::InvalidArchSpec(t) && t@ == text@
                },
            },
    {
        let len = text.unicode_len();
        let mut ptx = false;
        if len >= 4 {
            let tail = text.substring_char(len - 4, len);
            ptx = str_eq(tail, "+PTX");
        }
        proof {
            assert(ptx == is_ptx_suffix(text@));
        }
        let body_end: usize = if ptx {
            len - 4
        } else {
            len
        };
        let ghost b = if ptx {
            text@.take(text@.len() - 4)
        } else {
            text@
        };
        proof {
            assert(forall|t: int| 0 <= t < body_end ==> b[t] == #[trigger] text@[t]);
            assert(b.len() == body_end);
        }

        // One scan: find the single dot, demand digits everywhere else.
        let mut k: usize = 0;
        let mut dot: Option<usize> = None;
        while k < body_end
            invariant
                body_end <= text@.len(),
                b.len() == body_end,
                forall|t: int| 0 <= t < body_end ==> b[t] == #[trigger] text@[t],
                ptx == is_ptx_suffix(text@),
                b == if ptx {
                    text@.take(text@.len() - 4)
                } else {
                    text@
                },
                k <= body_end,
                match dot {
                    Some(d) => {
                        &&& d < k
                        &&& b[d as int] == '.'
                        &&& forall|t: int| 0 <= t < k && t != d ==> is_digit(#[trigger] b[t])
                    },
                    None => forall|t: int| 0 <= t < k ==> is_digit(#[trigger] b[t]),
                },
            decreases body_end - k,
        {
            let c = text.get_char(k);
            if c == '.' {
                match dot {
                    Some(d) => {
                        proof {
                            assert forall|i: int| !dot_at(b, i) by {
                                if dot_at(b, i) {
                                    if i != d {
                                        assert(is_digit(b[d as int]));
                                    } else {
                                        assert(is_digit(b[k as int]));
                                    }
                                }
                            }
                        }
                        return Err(BuildError::InvalidArchSpec(String::from_str(text)));
                    },
                    None => {
                        dot = Some(k);
                    },
                }
            } else if !is_digit_exec(c) {
                proof {
                    assert forall|i: int| !dot_at(b, i) by {
                        if dot_at(b, i) {
                            if i == k {
                                assert(b[i] == '.');
                            } else {
                                assert(is_digit(b[k as int]));
                            }
                        }
                    }
                }
                return Err(BuildError::InvalidArchSpec(String::from_str(text)));
            }
            k = k + 1;
        }

        let d = match dot {
            Some(d) => d,
            None => {
                proof {
                    assert forall|i: int| !dot_at(b, i) by {
                        if dot_at(b, i) {
                            assert(is_digit(b[i]));
                        }
                    }
                }
                return Err(BuildError::InvalidArchSpec(String::from_str(text)));
            },
        };
        if d < 1 || body_end - d < 2 {
            proof {
                assert forall|i: int| !dot_at(b, i) by {
                    if dot_at(b, i) {
                        if i != d {
                            assert(is_digit(b[d as int]));
                        }
                    }
                }
            }
            return Err(BuildError::InvalidArchSpec(String::from_str(text)));
        }
        proof {
            assert(dot_at(b, d as int));
            lemma_dot_unique(b, arch_dot(b), d as int);
        }

        let maj = match parse_digits_val(text, 0, d) {
            Some(n) => n,
            None => {
                proof {
                    assert(b.take(d as int) =~= text@.subrange(0, d as int));
                }
                return Err(BuildError::InvalidArchSpec(String::from_str(text)));
            },
        };
        let min = match parse_digits_val(text, d + 1, body_end) {
            Some(n) => n,
            None => {
                proof {
                    assert(b.skip(d + 1) =~= text@.subrange(d + 1 as int, body_end as int));
                }
                return Err(BuildError::InvalidArchSpec(String::from_str(text)));
            },
        };
        proof {
            assert(b.take(d as int) =~= text@.subrange(0, d as int));
            assert(b.skip(d + 1) =~= text@.subrange(d + 1 as int, body_end as int));
        }
        Ok(CudaArch { major: maj, minor: min, with_ptx: ptx })
    }

    /// Generates the `nvcc` code-generation flag for this architecture.
    pub fn nvcc_flag(&self) -> (r: String)
        ensures
            r@ == spec_nvcc_flag(*self),
    {
        let num = {
            let mut n = u32_to_dec_string(self.major);
            let m = u32_to_dec_string(self.minor);
            n.append(m.as_str());
            n
        };
        let mut out = String::from_str("-gencode=arch=compute_");
        out.append(num.as_str());
        out.append(",code=");
        if self.with_ptx {
            out.append("compute");
        } else {
            out.append("sm");
        }
        out.append("_");
        out.append(num.as_str());
        out
    }
}

impl core::str::FromStr for CudaArch {
    type Err = BuildError;

    fn from_str(text: &str) -> Result<CudaArch, BuildError> {
        CudaArch::parse(text)
    }
}

} // verus!
