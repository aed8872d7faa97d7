//! The bundled configuration: the expected library version, the default
//! architecture list, and the alias table, together with the parsing of
//! `;`-separated architecture lists.

use vstd::prelude::*;

use crate::arch::{spec_parse_arch, CudaArch};
use crate::errors::BuildError;
use crate::strutil::{dedup_seq, lemma_dedup_seq_contains, lemma_dedup_seq_unique, spec_split, split_str, str_eq};

verus! {

// ---------------------------------------------------------------------------
// Alias lookup.
// ---------------------------------------------------------------------------

/// First entry of `entries` whose key reads `name`, if any.
pub open spec fn spec_lookup_alias(
    entries: Seq<(String, Vec<CudaArch>)>,
    name: Seq<char>,
) -> Option<Vec<CudaArch>>
    decreases entries.len(),
{
    if entries.len() == 0 {
        None
    } else if entries[0].0@ == name {
        Some(entries[0].1)
    } else {
        spec_lookup_alias(entries.skip(1), name)
    }
}

/// What one token of an architecture list denotes: the alias expansion when
/// the token is an alias name, else the single architecture it spells, else
/// nothing.
pub open spec fn spec_expand_token(
    tok: Seq<char>,
    entries: Seq<(String, Vec<CudaArch>)>,
) -> Option<Seq<CudaArch>> {
    match spec_lookup_alias(entries, tok) {
        Some(v) => Some(v@),
        None => match spec_parse_arch(tok) {
            Some(a) => Some(seq![a]),
            None => None,
        },
    }
}

/// Every token of the list denotes something.
pub open spec fn all_tokens_expand(
    toks: Seq<Seq<char>>,
    entries: Seq<(String, Vec<CudaArch>)>,
) -> bool {
    forall|i: int| 0 <= i < toks.len() ==> spec_expand_token(#[trigger] toks[i], entries) is Some
}

/// The expansion of a token, or nothing.
pub open spec fn expand_or_empty(
    tok: Seq<char>,
    entries: Seq<(String, Vec<CudaArch>)>,
) -> Seq<CudaArch> {
    match spec_expand_token(tok, entries) {
        Some(l) => l,
        None => Seq::empty(),
    }
}

/// Concatenation of the expansions of the first `n` tokens, in order.
pub open spec fn flat_expand(
    toks: Seq<Seq<char>>,
    entries: Seq<(String, Vec<CudaArch>)>,
    n: int,
) -> Seq<CudaArch>
    decreases n,
{
    if n <= 0 {
        Seq::empty()
    } else {
        flat_expand(toks, entries, n - 1) + expand_or_empty(toks[n - 1], entries)
    }
}

/// What a whole `;`-separated architecture list denotes. Tokens keep their
/// order, and expansions may repeat across tokens.
pub open spec fn spec_parse_arch_list(
    text: Seq<char>,
    entries: Seq<(String, Vec<CudaArch>)>,
) -> Option<Seq<CudaArch>> {
    let toks = spec_split(text, seq![';']);
    if all_tokens_expand(toks, entries) {
        Some(flat_expand(toks, entries, toks.len() as int))
    } else {
        None
    }
}

/// Copies a list of architectures.
pub fn clone_arches(v: &Vec<CudaArch>) -> (r: Vec<CudaArch>)
    ensures
        r@ == v@,
{
    let mut out: Vec<CudaArch> = Vec::new();
    let mut i: usize = 0;
    while i < v.len()
        invariant
            i <= v@.len(),
            out@ == v@.take(i as int),
        decreases v@.len() - i,
    {
        out.push(v[i]);
        proof {
            assert(out@ =~= v@.take(i + 1 as int));
        }
        i = i + 1;
    }
    proof {
        assert(v@.take(v@.len() as int) =~= v@);
    }
    out
}

/// Looks `name` up in the alias table; first matching key wins.
pub fn lookup_alias(aliases: &Vec<(String, Vec<CudaArch>)>, name: &str) -> (r: Option<
    Vec<CudaArch>,
>)
    ensures
        match r {
            Some(v) => spec_lookup_alias(aliases@, name@) matches Some(w) && v@ == w@,
            None => spec_lookup_alias(aliases@, name@) is None,
        },
{
    let mut i: usize = 0;
    proof {
        assert(aliases@.skip(0) =~= aliases@);
    }
    while i < aliases.len()
        invariant
            i <= aliases@.len(),
            spec_lookup_alias(aliases@, name@) == spec_lookup_alias(aliases@.skip(i as int), name@),
        decreases aliases@.len() - i,
    {
        proof {
            assert(aliases@.skip(i as int)[0] == aliases@[i as int]);
            assert(aliases@.skip(i as int).skip(1) =~= aliases@.skip(i + 1 as int));
        }
        let entry = &aliases[i];
        if str_eq(entry.0.as_str(), name) {
            return Some(clone_arches(&entry.1));
        }
        i = i + 1;
    }
    None
}

/// Parses a `;`-separated architecture list. Each token is an alias name
/// (expanded in place, order preserved) or a `MAJOR.MINOR[+PTX]` literal;
/// anything else fails with an invalid-architecture error naming the token.
pub fn parse_cuda_arch_list(text: &str, aliases: &Vec<(String, Vec<CudaArch>)>) -> (r: Result<
    Vec<CudaArch>,
    BuildError,
>)
    ensures
        match r {
            Ok(v) => spec_parse_arch_list(text@, aliases@) == Some(v@),
            Err(e) => {
                &&& spec_parse_arch_list(text@, aliases@) is None
                &&& e matches BuildError::InvalidArchSpec(t)
                    && spec_expand_token(t@, aliases@) is None
                    && spec_split(text@, seq![';']).contains(t@)
            },
        },
{
    let mut seps: Vec<char> = Vec::new();
    seps.push(';');
    proof {
        assert(seps@ =~= seq![';']);
    }
    let tokens = split_str(text, &seps);
    let ghost toks = spec_split(text@, seq![';']);
    let mut out: Vec<CudaArch> = Vec::new();
    let mut i: usize = 0;
    while i < tokens.len()
        invariant
            tokens.deep_view() == toks,
            toks == spec_split(text@, seq![';']),
            i <= tokens@.len(),
            tokens@.len() == toks.len(),
            forall|j: int| 0 <= j < i ==> spec_expand_token(#[trigger] toks[j], aliases@) is Some,
            out@ == flat_expand(toks, aliases@, i as int),
        decreases tokens@.len() - i,
    {
        let tok = &tokens[i];
        proof {
            assert(toks[i as int] == tokens@[i as int]@);
        }
        match lookup_alias(aliases, tok.as_str()) {
            Some(list) => {
                let mut k: usize = 0;
                while k < list.len()
                    invariant
                        k <= list@.len(),
                        out@ == flat_expand(toks, aliases@, i as int) + list@.take(k as int),
                    decreases list@.len() - k,
                {
                    out.push(list[k]);
                    proof {
                        assert(out@ =~= flat_expand(toks, aliases@, i as int) + list@.take(
                            k + 1 as int,
                        ));
                    }
                    k = k + 1;
                }
                proof {
                    assert(list@.take(list@.len() as int) =~= list@);
                    assert(out@ =~= flat_expand(toks, aliases@, i + 1 as int));
                }
            },
            None => {
                match CudaArch::parse(tok.as_str()) {
                    Ok(a) => {
                        out.push(a);
                        proof {
                            assert(expand_or_empty(toks[i as int], aliases@) =~= seq![a]);
                            assert(out@ =~= flat_expand(toks, aliases@, i + 1 as int));
                        }
                    },
                    Err(_) => {
                        proof {
                            assert(toks.contains(toks[i as int]));
                        }
                        return Err(BuildError::InvalidArchSpec(tok.clone()));
                    },
                }
            },
        }
        i = i + 1;
    }
    proof {
        assert(all_tokens_expand(toks, aliases@));
    }
    Ok(out)
}

// ---------------------------------------------------------------------------
// Alias expansion is compatible with concatenation.
// ---------------------------------------------------------------------------

/// The looked-up expansion of a token, or nothing.
pub open spec fn lookup_or_empty(
    entries: Seq<(String, Vec<CudaArch>)>,
    tok: Seq<char>,
) -> Seq<CudaArch> {
    match spec_lookup_alias(entries, tok) {
        Some(v) => v@,
        None => Seq::empty(),
    }
}

/// Concatenation of the looked-up expansions of the first `n` tokens.
pub open spec fn flat_alias(
    toks: Seq<Seq<char>>,
    entries: Seq<(String, Vec<CudaArch>)>,
    n: int,
) -> Seq<CudaArch>
    decreases n,
{
    if n <= 0 {
        Seq::empty()
    } else {
        flat_alias(toks, entries, n - 1) + lookup_or_empty(entries, toks[n - 1])
    }
}

proof fn lemma_flat_expand_is_flat_alias(
    toks: Seq<Seq<char>>,
    entries: Seq<(String, Vec<CudaArch>)>,
    n: int,
)
    requires
        n <= toks.len(),
        forall|i: int| 0 <= i < n ==> spec_lookup_alias(entries, #[trigger] toks[i]) is Some,
    ensures
        flat_expand(toks, entries, n) == flat_alias(toks, entries, n),
    decreases n,
{
    if n > 0 {
        lemma_flat_expand_is_flat_alias(toks, entries, n - 1);
    }
}

/// A list whose tokens are all alias names denotes exactly the concatenation
/// of each alias's expansion, in token order. Since the order is preserved,
/// the result carries the same multiset of architectures as concatenating
/// the expansions by hand.
pub proof fn lemma_alias_expansion_concat(text: Seq<char>, entries: Seq<(String, Vec<CudaArch>)>)
    requires
        forall|i: int|
            0 <= i < spec_split(text, seq![';']).len() ==> spec_lookup_alias(
                entries,
                #[trigger] spec_split(text, seq![';'])[i],
            ) is Some,
    ensures
        spec_parse_arch_list(text, entries) == Some(
            flat_alias(
                spec_split(text, seq![';']),
                entries,
                spec_split(text, seq![';']).len() as int,
            ),
        ),
{
    let toks = spec_split(text, seq![';']);
    assert(all_tokens_expand(toks, entries));
    lemma_flat_expand_is_flat_alias(toks, entries, toks.len() as int);
}

// ---------------------------------------------------------------------------
// The configuration itself.
// ---------------------------------------------------------------------------

/// The bundled configuration, interpreted: the expected library version, the
/// default architecture set, and the alias table.
#[derive(Debug, Clone)]
pub struct Config {
    pub torch_version: String,
    pub torch_cuda_arch_list: Vec<CudaArch>,
    pub cuda_arch_aliases: Vec<(String, Vec<CudaArch>)>,
}

impl Config {
    /// The architecture set holds no duplicates and alias keys are unique.
    pub open spec fn wf(&self) -> bool {
        &&& forall|i: int, j: int|
            0 <= i < j < self.torch_cuda_arch_list@.len()
                ==> self.torch_cuda_arch_list@[i] != self.torch_cuda_arch_list@[j]
        &&& forall|i: int, j: int|
            0 <= i < j < self.cuda_arch_aliases@.len() ==> self.cuda_arch_aliases@[i].0@
                != self.cuda_arch_aliases@[j].0@
    }
}

/// The configuration as read from its serialized form, before the
/// architecture tokens are interpreted.
#[derive(Debug, Clone)]
pub struct RawConfig {
    pub torch_version: String,
    pub torch_cuda_arch_list: Vec<String>,
    pub cuda_arch_aliases: Vec<(String, Vec<String>)>,
}

/// Parses every token of `items` as a `MAJOR.MINOR[+PTX]` literal; the whole
/// list denotes nothing as soon as one token is malformed.
pub open spec fn spec_parse_tokens(items: Seq<String>) -> Option<Seq<CudaArch>>
    decreases items.len(),
{
    if items.len() == 0 {
        Some(Seq::empty())
    } else {
        match spec_parse_tokens(items.drop_last()) {
            Some(pre) => match spec_parse_arch(items.last()@) {
                Some(a) => Some(pre.push(a)),
                None => None,
            },
            None => None,
        }
    }
}

proof fn lemma_parse_tokens_none(items: Seq<String>, i: int)
    requires
        0 <= i < items.len(),
        spec_parse_arch(items[i]@) is None,
    ensures
        spec_parse_tokens(items) is None,
    decreases items.len(),
{
    if i == items.len() - 1 {
    } else {
        assert(items.drop_last()[i] == items[i]);
        lemma_parse_tokens_none(items.drop_last(), i);
    }
}

/// Some entry among the first `upto` carries the key `name`.
pub open spec fn key_seen(entries: Seq<(String, Vec<String>)>, upto: int, name: Seq<char>) -> bool {
    exists|j: int| 0 <= j < upto && (#[trigger] entries[j]).0@ == name
}

/// `entries` with later entries dropped when their key already appeared.
pub open spec fn dedup_keys(entries: Seq<(String, Vec<String>)>) -> Seq<(String, Vec<String>)>
    decreases entries.len(),
{
    if entries.len() == 0 {
        Seq::empty()
    } else {
        let pre = dedup_keys(entries.drop_last());
        if key_seen(entries, entries.len() - 1, entries.last().0@) {
            pre
        } else {
            pre.push(entries.last())
        }
    }
}

proof fn lemma_dedup_keys_key_set(entries: Seq<(String, Vec<String>)>, name: Seq<char>)
    ensures
        (exists|t: int| 0 <= t < dedup_keys(entries).len() && (#[trigger] dedup_keys(entries)[t]).0@
            == name) <==> key_seen(entries, entries.len() as int, name),
    decreases entries.len(),
{
    let d = dedup_keys(entries);
    if entries.len() == 0 {
        assert(!key_seen(entries, 0, name));
    } else {
        let p = entries.drop_last();
        lemma_dedup_keys_key_set(p, name);
        let dp = dedup_keys(p);
        assert(forall|j: int| 0 <= j < p.len() ==> p[j] == #[trigger] entries[j]);
        assert(key_seen(entries, entries.len() as int, name) <==> (key_seen(
            p,
            p.len() as int,
            name,
        ) || entries.last().0@ == name)) by {
            if key_seen(entries, entries.len() as int, name) {
                let j = choose|j: int|
                    0 <= j < entries.len() && (#[trigger] entries[j]).0@ == name;
                if j < entries.len() - 1 {
                    assert(p[j].0@ == name);
                }
            }
            if entries.last().0@ == name {
                assert(entries[entries.len() - 1].0@ == name);
            }
        }
        if key_seen(entries, entries.len() - 1, entries.last().0@) {
            assert(key_seen(p, p.len() as int, entries.last().0@)) by {
                let j = choose|j: int|
                    0 <= j < entries.len() - 1 && (#[trigger] entries[j]).0@ == entries.last().0@;
                assert(p[j].0@ == entries.last().0@);
            }
            assert(d == dp);
        } else {
            assert(d == dp.push(entries.last()));
            assert(forall|t: int| 0 <= t < dp.len() ==> d[t] == #[trigger] dp[t]);
            assert(d.last() == entries.last());
            assert forall|t: int|
                0 <= t < d.len() && (#[trigger] d[t]).0@ == name implies (exists|u: int|
                0 <= u < dp.len() && (#[trigger] dp[u]).0@ == name) || entries.last().0@
                == name by {
                if t < dp.len() {
                    assert(dp[t].0@ == name);
                }
            }
            if exists|t: int| 0 <= t < dp.len() && (#[trigger] dp[t]).0@ == name {
                let t = choose|t: int| 0 <= t < dp.len() && (#[trigger] dp[t]).0@ == name;
                assert(d[t].0@ == name);
            }
            if entries.last().0@ == name {
                assert(d[d.len() - 1].0@ == name);
            }
        }
    }
}

proof fn lemma_dedup_keys_unique(entries: Seq<(String, Vec<String>)>)
    ensures
        forall|i: int, j: int|
            0 <= i < j < dedup_keys(entries).len() ==> (#[trigger] dedup_keys(entries)[i]).0@ != (
            #[trigger] dedup_keys(entries)[j]).0@,
    decreases entries.len(),
{
    if entries.len() > 0 {
        let p = entries.drop_last();
        lemma_dedup_keys_unique(p);
        let d = dedup_keys(entries);
        let dp = dedup_keys(p);
        if !key_seen(entries, entries.len() - 1, entries.last().0@) {
            lemma_dedup_keys_key_set(p, entries.last().0@);
            assert(!key_seen(p, p.len() as int, entries.last().0@)) by {
                if key_seen(p, p.len() as int, entries.last().0@) {
                    let j = choose|j: int|
                        0 <= j < p.len() && (#[trigger] p[j]).0@ == entries.last().0@;
                    assert(entries[j].0@ == entries.last().0@);
                }
            }
            assert(forall|t: int| 0 <= t < dp.len() ==> (#[trigger] dp[t]).0@ != entries.last().0@);
            assert(d == dp.push(entries.last()));
            assert forall|i: int, j: int| 0 <= i < j < d.len() implies (#[trigger] d[i]).0@ != (
            #[trigger] d[j]).0@ by {
                if j < dp.len() {
                    assert(d[i] == dp[i] && d[j] == dp[j]);
                } else {
                    assert(d[j] == entries.last());
                    assert(d[i] == dp[i]);
                }
            }
        } else {
            assert(d == dp);
        }
    }
}

/// Architecture membership test.
pub fn contains_arch(v: &Vec<CudaArch>, a: CudaArch) -> (r: bool)
    ensures
        r == v@.contains(a),
{
    let mut i: usize = 0;
    while i < v.len()
        invariant
            i <= v@.len(),
            forall|j: int| 0 <= j < i ==> v@[j] != a,
        decreases v@.len() - i,
    {
        if v[i] == a {
            return true;
        }
        i = i + 1;
    }
    false
}

/// Parses every token of a list of plain `MAJOR.MINOR[+PTX]` literals.
fn parse_tokens(items: &Vec<String>) -> (r: Result<Vec<CudaArch>, BuildError>)
    ensures
        match r {
            Ok(v) => spec_parse_tokens(items@) == Some(v@),
            Err(e) => {
                &&& spec_parse_tokens(items@) is None
                &&& e matches BuildError::InvalidArchSpec(t) && spec_parse_arch(t@) is None
                    && exists|i: int| 0 <= i < items@.len() && (#[trigger] items@[i])@ == t@
            },
        },
{
    let mut out: Vec<CudaArch> = Vec::new();
    let mut i: usize = 0;
    proof {
        assert(items@.take(0) =~= Seq::<String>::empty());
    }
    while i < items.len()
        invariant
            i <= items@.len(),
            spec_parse_tokens(items@.take(i as int)) == Some(out@),
        decreases items@.len() - i,
    {
        match CudaArch::parse(items[i].as_str()) {
            Ok(a) => {
                out.push(a);
                proof {
                    let next = items@.take(i + 1 as int);
                    assert(next.drop_last() =~= items@.take(i as int));
                    assert(next.last() == items@[i as int]);
                }
            },
            Err(_) => {
                proof {
                    lemma_parse_tokens_none(items@, i as int);
                }
                return Err(BuildError::InvalidArchSpec(items[i].clone()));
            },
        }
        i = i + 1;
    }
    proof {
        assert(items@.take(items@.len() as int) =~= items@);
    }
    Ok(out)
}

/// Drops repeated architectures, keeping first positions.
fn dedup_arch_vec(v: &Vec<CudaArch>) -> (r: Vec<CudaArch>)
    ensures
        r@ == dedup_seq(v@),
{
    let mut out: Vec<CudaArch> = Vec::new();
    let mut i: usize = 0;
    proof {
        assert(v@.take(0) =~= Seq::<CudaArch>::empty());
    }
    while i < v.len()
        invariant
            i <= v@.len(),
            out@ == dedup_seq(v@.take(i as int)),
        decreases v@.len() - i,
    {
        proof {
            lemma_dedup_seq_contains(v@.take(i as int), v@[i as int]);
            let next = v@.take(i + 1 as int);
            assert(next.drop_last() =~= v@.take(i as int));
            assert(next.last() == v@[i as int]);
        }
        if !contains_arch(&out, v[i]) {
            out.push(v[i]);
        }
        i = i + 1;
    }
    proof {
        assert(v@.take(v@.len() as int) =~= v@);
    }
    out
}

/// Key membership test among interpreted alias entries.
fn key_in(out: &Vec<(String, Vec<CudaArch>)>, name: &str) -> (r: bool)
    ensures
        r == exists|t: int| 0 <= t < out@.len() && (#[trigger] out@[t]).0@ == name@,
{
    let mut i: usize = 0;
    while i < out.len()
        invariant
            i <= out@.len(),
            forall|j: int| 0 <= j < i ==> (#[trigger] out@[j]).0@ != name@,
        decreases out@.len() - i,
    {
        if str_eq(out[i].0.as_str(), name) {
            return true;
        }
        i = i + 1;
    }
    false
}

/// Interprets a raw configuration: parses every architecture token, drops
/// repeated architectures from the default set, and keeps the first entry
/// for each alias key. Fails, naming the token, as soon as one token is
/// malformed.
pub fn config_from_raw(raw: &RawConfig) -> (r: Result<Config, BuildError>)
    ensures
        match r {
            Ok(c) => {
                &&& c.torch_version@ == raw.torch_version@
                &&& spec_parse_tokens(raw.torch_cuda_arch_list@) matches Some(archs)
                    && c.torch_cuda_arch_list@ == dedup_seq(archs)
                &&& ({
                    let fr = dedup_keys(raw.cuda_arch_aliases@);
                    &&& c.cuda_arch_aliases@.len() == fr.len()
                    &&& forall|t: int|
                        0 <= t < fr.len() ==> (#[trigger] c.cuda_arch_aliases@[t]).0@
                            == fr[t].0@ && spec_parse_tokens(fr[t].1@) == Some(
                            c.cuda_arch_aliases@[t].1@,
                        )
                })
                &&& forall|i: int|
                    0 <= i < raw.cuda_arch_aliases@.len() ==> spec_parse_tokens(
                        (#[trigger] raw.cuda_arch_aliases@[i]).1@,
                    ) is Some
                &&& c.wf()
            },
            Err(e) => {
                &&& e matches BuildError::InvalidArchSpec(t) && spec_parse_arch(t@) is None
                &&& !(spec_parse_tokens(raw.torch_cuda_arch_list@) is Some && forall|i: int|
                    0 <= i < raw.cuda_arch_aliases@.len() ==> spec_parse_tokens(
                        (#[trigger] raw.cuda_arch_aliases@[i]).1@,
                    ) is Some)
            },
        },
{
    let torch_version = raw.torch_version.clone();
    let parsed_list = match parse_tokens(&raw.torch_cuda_arch_list) {
        Ok(v) => v,
        Err(e) => {
            return Err(e);
        },
    };
    let torch_cuda_arch_list = dedup_arch_vec(&parsed_list);

    let mut cuda_arch_aliases: Vec<(String, Vec<CudaArch>)> = Vec::new();
    let mut i: usize = 0;
    let ghost entries = raw.cuda_arch_aliases@;
    proof {
        assert(entries.take(0) =~= Seq::<(String, Vec<String>)>::empty());
    }
    while i < raw.cuda_arch_aliases.len()
        invariant
            i <= entries.len(),
            entries == raw.cuda_arch_aliases@,
            forall|j: int| 0 <= j < i ==> spec_parse_tokens((#[trigger] entries[j]).1@) is Some,
            ({
                let fr = dedup_keys(entries.take(i as int));
                &&& cuda_arch_aliases@.len() == fr.len()
                &&& forall|t: int|
                    0 <= t < fr.len() ==> (#[trigger] cuda_arch_aliases@[t]).0@ == fr[t].0@
                        && spec_parse_tokens(fr[t].1@) == Some(cuda_arch_aliases@[t].1@)
            }),
        decreases entries.len() - i,
    {
        let entry = &raw.cuda_arch_aliases[i];
        let parsed = match parse_tokens(&entry.1) {
            Ok(v) => v,
            Err(e) => {
                return Err(e);
            },
        };
        proof {
            let pre = entries.take(i as int);
            let next = entries.take(i + 1 as int);
            assert(next.drop_last() =~= pre);
            assert(next.last() == entries[i as int]);
            assert(forall|j: int| 0 <= j < i ==> pre[j] == #[trigger] entries[j]);
            assert(forall|j: int| 0 <= j < i + 1 ==> next[j] == #[trigger] entries[j]);
            lemma_dedup_keys_key_set(pre, entries[i as int].0@);
            assert(key_seen(next, next.len() - 1, next.last().0@) == key_seen(
                pre,
                pre.len() as int,
                entries[i as int].0@,
            )) by {
                if key_seen(next, next.len() - 1, next.last().0@) {
                    let j = choose|j: int|
                        0 <= j < next.len() - 1 && (#[trigger] next[j]).0@ == next.last().0@;
                    assert(pre[j].0@ == entries[i as int].0@);
                }
                if key_seen(pre, pre.len() as int, entries[i as int].0@) {
                    let j = choose|j: int|
                        0 <= j < pre.len() && (#[trigger] pre[j]).0@ == entries[i as int].0@;
                    assert(next[j].0@ == next.last().0@);
                }
            }
        }
        if !key_in(&cuda_arch_aliases, entry.0.as_str()) {
            proof {
                let pre = entries.take(i as int);
                let next = entries.take(i + 1 as int);
                let frp = dedup_keys(pre);
                assert(!key_seen(pre, pre.len() as int, entries[i as int].0@)) by {
                    if key_seen(pre, pre.len() as int, entries[i as int].0@) {
                        let t = choose|t: int|
                            0 <= t < frp.len() && (#[trigger] frp[t]).0@ == entries[i as int].0@;
                        assert(cuda_arch_aliases@[t].0@ == entries[i as int].0@);
                    }
                }
                assert(!key_seen(next, next.len() - 1, next.last().0@));
            }
            let key = entry.0.clone();
            cuda_arch_aliases.push((key, parsed));
            proof {
                let fr = dedup_keys(entries.take(i + 1 as int));
                let frp = dedup_keys(entries.take(i as int));
                assert(fr == frp.push(entries[i as int]));
                assert(forall|t: int| 0 <= t < frp.len() ==> fr[t] == #[trigger] frp[t]);
                assert(fr.last() == entries[i as int]);
            }
        } else {
            proof {
                let pre = entries.take(i as int);
                let next = entries.take(i + 1 as int);
                let frp = dedup_keys(pre);
                let t = choose|t: int|
                    0 <= t < cuda_arch_aliases@.len() && (#[trigger] cuda_arch_aliases@[t]).0@
                        == entries[i as int].0@;
                assert(frp[t].0@ == entries[i as int].0@);
                assert(key_seen(pre, pre.len() as int, entries[i as int].0@));
                assert(key_seen(next, next.len() - 1, next.last().0@));
                assert(dedup_keys(next) == frp);
            }
        }
        i = i + 1;
    }
    proof {
        assert(entries.take(entries.len() as int) =~= entries);
        lemma_dedup_keys_unique(entries);
        lemma_dedup_seq_unique(parsed_list@);
    }
    Ok(Config { torch_version, torch_cuda_arch_list, cuda_arch_aliases })
}

/// The bundled configuration, in its serialized form.
pub open spec fn spec_bundled_config_text() -> Seq<char> {
    "torch_version = \"2.0.0\"\ntorch_cuda_arch_list = [\"3.5\", \"3.7\", \"5.0\", \"5.2\", \"5.3\", \"6.0\", \"6.1\", \"6.2\", \"7.0\", \"7.2\", \"7.5\", \"8.0\", \"8.6\"]\n\n[cuda_arch_aliases]\nPascal = [\"6.0\", \"6.1\", \"6.2\"]\nVolta = [\"7.0\", \"7.2\"]\nTuring = [\"7.5\"]\nAmpere = [\"8.0\", \"8.6\"]\n"@
}

/// The bundled configuration shipped with the library: the expected
/// library version, the default architecture set, and the alias table.
pub fn bundled_config_text() -> (r: &'static str)
    ensures
        r@ == spec_bundled_config_text(),
{
    "torch_version = \"2.0.0\"\ntorch_cuda_arch_list = [\"3.5\", \"3.7\", \"5.0\", \"5.2\", \"5.3\", \"6.0\", \"6.1\", \"6.2\", \"7.0\", \"7.2\", \"7.5\", \"8.0\", \"8.6\"]\n\n[cuda_arch_aliases]\nPascal = [\"6.0\", \"6.1\", \"6.2\"]\nVolta = [\"7.0\", \"7.2\"]\nTuring = [\"7.5\"]\nAmpere = [\"8.0\", \"8.6\"]\n"
}

/// The architecture set the build targets: an override list, parsed and
/// with repetitions dropped, wins over the bundled default set.
pub fn torch_cuda_arch_list(env_val: &Option<String>, config: &Config) -> (r: Result<
    Vec<CudaArch>,
    BuildError,
>)
    ensures
        match *env_val {
            Some(v) => match r {
                Ok(l) => spec_parse_arch_list(v@, config.cuda_arch_aliases@) matches Some(archs)
                    && l@ == dedup_seq(archs),
                Err(e) => {
                    &&& spec_parse_arch_list(v@, config.cuda_arch_aliases@) is None
                    &&& e matches BuildError::InvalidArchSpec(t)
                        && spec_expand_token(t@, config.cuda_arch_aliases@) is None
                },
            },
            None => r matches Ok(l) && l@ == config.torch_cuda_arch_list@,
        },
{
    match env_val {
        Some(v) => {
            let parsed = match parse_cuda_arch_list(v.as_str(), &config.cuda_arch_aliases) {
                Ok(l) => l,
                Err(e) => {
                    return Err(e);
                },
            };
            Ok(dedup_arch_vec(&parsed))
        },
        None => Ok(clone_arches(&config.torch_cuda_arch_list)),
    }
}

} // verus!
