use crate::algo::{Digester, Hasher};
use crate::stats::SharedStats;
use std::sync::Arc;
use vstd::prelude::*;
use vstd::string::StringSliceAdditionalSpecFns;
use vstd::utf8::{encode_utf8, is_ascii_chars, is_ascii_chars_encode_utf8};

verus! {

/// The digest algorithm of a run.
#[derive(Clone, Copy, Debug, PartialEq, Eq, Structural)]
pub enum HashAlgorithm {
    Sha256,
    Blake3,
}

/// The name of an algorithm in the flags string.
pub open spec fn algorithm_name(a: HashAlgorithm) -> Seq<char> {
    match a {
        HashAlgorithm::Sha256 => seq!['s', 'h', 'a', '2', '5', '6'],
        HashAlgorithm::Blake3 => seq!['b', 'l', 'a', 'k', 'e', '3'],
    }
}

impl HashAlgorithm {
    /// The algorithm's name as it appears in the flags string.
    pub fn name(&self) -> (r: &'static str)
        ensures
            r@ == algorithm_name(*self),
    {
        match self {
            HashAlgorithm::Sha256 => {
                proof {
                    reveal_strlit("sha256");
                }
                "sha256"
            },
            HashAlgorithm::Blake3 => {
                proof {
                    reveal_strlit("blake3");
                }
                "blake3"
            },
        }
    }
}

/// The resolved policy of one run.
#[derive(Debug)]
pub struct Config {
    /// The target, as the bytes of its path.
    pub path: Option<Vec<u8>>,
    pub verbose: bool,
    pub algorithm: HashAlgorithm,
    pub block_size: usize,
    pub threads: usize,
    pub verify: Option<String>,
    pub include_file_content: bool,
    pub include_size: bool,
    pub include_mode: bool,
    pub include_uid: bool,
    pub include_gid: bool,
    pub include_ctime: bool,
    pub include_mtime: bool,
    pub include_atime: bool,
    pub stats: Arc<SharedStats>,
}

/// The user-facing settings a policy is resolved from.
#[derive(Debug)]
pub struct Args {
    pub verbose: bool,
    /// The target, as the bytes of its path.
    pub path: Option<Vec<u8>>,
    pub algorithm: HashAlgorithm,
    /// Block size for reading files, in KiB.
    pub block_size: usize,
    pub num_threads: Option<usize>,
    pub no_content: bool,
    pub no_size: bool,
    /// Excludes mode, owner and group at once.
    pub no_perms: bool,
    pub no_mode: bool,
    pub no_owner: bool,
    pub no_group: bool,
    pub no_mtime: bool,
    pub atime: bool,
    pub ctime: bool,
    /// A flags string that overrides the algorithm and every toggle.
    pub flags: Option<String>,
    pub verify: Option<String>,
}

/// Most workers a run uses unless a count is given.
pub const MAX_DEFAULT_THREADS: usize = 8;

/// The worker count: the one given, else the lesser of `cores` and eight.
pub open spec fn thread_count(args: Args, cores: usize) -> usize {
    match args.num_threads {
        Some(n) => n,
        None => if cores < MAX_DEFAULT_THREADS {
            cores
        } else {
            MAX_DEFAULT_THREADS
        },
    }
}

/// The settings of `c` that no flags string touches, as `args` give them.
pub open spec fn settings_from_args(c: Config, args: Args, cores: usize) -> bool {
    &&& c.path == args.path
    &&& c.verbose == args.verbose
    &&& c.block_size == args.block_size * 1024
    &&& c.threads == thread_count(args, cores)
    &&& c.verify == args.verify
}

/// The algorithm and inclusion flags of `c`, as the individual toggles give them.
pub open spec fn flags_from_toggles(c: Config, args: Args) -> bool {
    &&& c.algorithm == args.algorithm
    &&& c.include_file_content == !args.no_content
    &&& c.include_size == !args.no_size
    &&& c.include_mode == (!args.no_perms && !args.no_mode)
    &&& c.include_uid == (!args.no_perms && !args.no_owner)
    &&& c.include_gid == (!args.no_perms && !args.no_group)
    &&& c.include_mtime == !args.no_mtime
    &&& c.include_ctime == args.ctime
    &&& c.include_atime == args.atime
}

/// The algorithm and inclusion flags of `c`, as a decoded flags string gives them.
pub open spec fn flags_from_letters(c: Config, a: HashAlgorithm, letters: Seq<u8>) -> bool {
    &&& c.algorithm == a
    &&& c.include_file_content == letters.contains('c' as u8)
    &&& c.include_size == letters.contains('s' as u8)
    &&& c.include_mode == letters.contains('p' as u8)
    &&& c.include_uid == letters.contains('u' as u8)
    &&& c.include_gid == letters.contains('g' as u8)
    &&& c.include_ctime == letters.contains('t' as u8)
    &&& c.include_mtime == letters.contains('m' as u8)
    &&& c.include_atime == letters.contains('a' as u8)
}

/// The error resolving `args` ends in, if any: a malformed flags string
/// first, then a missing target.
pub open spec fn resolution_error(args: Args) -> Option<ConfigError> {
    match args.flags {
        Some(f) => match parse_flags(encode_utf8(f@)) {
            Err(e) => Some(e),
            Ok(_) => if args.path is None && args.verify is None {
                Some(ConfigError::MissingTarget)
            } else {
                None
            },
        },
        None => if args.path is None && args.verify is None {
            Some(ConfigError::MissingTarget)
        } else {
            None
        },
    }
}

/// `c` is the policy that `args` resolve to on a machine with `cores` cores.
pub open spec fn resolves(c: Config, args: Args, cores: usize) -> bool {
    &&& settings_from_args(c, args, cores)
    &&& match args.flags {
        Some(f) => match parse_flags(encode_utf8(f@)) {
            Ok((a, letters)) => flags_from_letters(c, a, letters),
            Err(_) => false,
        },
        None => flags_from_toggles(c, args),
    }
}

/// Relies on `num_cpus::get`: the number of logical cores of this machine.
/// Nothing is known of it.
#[verifier::external_body]
fn available_cores() -> (r: usize) {
    num_cpus::get()
}

/// `letter` where `on` holds, nothing otherwise.
pub open spec fn letter_if(on: bool, letter: char) -> Seq<char> {
    if on {
        seq![letter]
    } else {
        Seq::empty()
    }
}

/// The canonical flags string `v1:<algorithm>:<letters>` of a policy.
pub open spec fn flags_text(c: Config) -> Seq<char> {
    seq!['v', '1', ':'] + algorithm_name(c.algorithm) + seq![':'] + letter_if(
        c.include_file_content,
        'c',
    ) + letter_if(c.include_size, 's') + letter_if(c.include_mode, 'p') + letter_if(
        c.include_uid,
        'u',
    ) + letter_if(c.include_gid, 'g') + letter_if(c.include_ctime, 't') + letter_if(
        c.include_mtime,
        'm',
    ) + letter_if(c.include_atime, 'a')
}


/// Configuration errors, reported before any hashing starts.
#[derive(Clone, Copy, Debug, PartialEq, Eq, Structural)]
pub enum ConfigError {
    /// Neither a path nor a verification artifact was given.
    MissingTarget,
    /// The flags string is not `v1:<algorithm>:<letters>`.
    FlagsFormat,
    /// The algorithm named in the flags string is not known.
    UnknownAlgorithm,
}

/// Characters below 128 as the bytes that encode them.
#[verifier::opaque]
pub open spec fn ascii_bytes(cs: Seq<char>) -> Seq<u8> {
    cs.map_values(|c: char| c as u8)
}

/// The pieces of `s` between occurrences of `sep` (one piece more than there
/// are separators).
pub open spec fn split_on(s: Seq<u8>, sep: u8) -> Seq<Seq<u8>>
    decreases s.len(),
{
    if s.len() == 0 {
        seq![Seq::empty()]
    } else {
        let front = split_on(s.drop_last(), sep);
        if s.last() == sep {
            front.push(Seq::empty())
        } else {
            front.update(front.len() - 1, front.last().push(s.last()))
        }
    }
}

pub proof fn lemma_split_on_nonempty(s: Seq<u8>, sep: u8)
    ensures
        split_on(s, sep).len() >= 1,
    decreases s.len(),
{
    if s.len() > 0 {
        lemma_split_on_nonempty(s.drop_last(), sep);
    }
}

/// The algorithm a flags-string token names, if any.
pub open spec fn parse_algorithm(t: Seq<u8>) -> Option<HashAlgorithm> {
    if t == ascii_bytes(algorithm_name(HashAlgorithm::Sha256)) {
        Some(HashAlgorithm::Sha256)
    } else if t == ascii_bytes(algorithm_name(HashAlgorithm::Blake3)) {
        Some(HashAlgorithm::Blake3)
    } else {
        None
    }
}

/// Decodes the bytes of a flags string into its algorithm and letters part.
pub open spec fn parse_flags(s: Seq<u8>) -> Result<(HashAlgorithm, Seq<u8>), ConfigError> {
    let parts = split_on(s, ':' as u8);
    if parts.len() != 3 || parts[0] != ascii_bytes(seq!['v', '1']) {
        Err(ConfigError::FlagsFormat)
    } else {
        match parse_algorithm(parts[1]) {
            Some(a) => Ok((a, parts[2])),
            None => Err(ConfigError::UnknownAlgorithm),
        }
    }
}

/// `c` with the algorithm `a` and the inclusion flags that `letters` holds.
pub open spec fn with_flags(c: Config, a: HashAlgorithm, letters: Seq<u8>) -> Config {
    Config {
        algorithm: a,
        include_file_content: letters.contains('c' as u8),
        include_size: letters.contains('s' as u8),
        include_mode: letters.contains('p' as u8),
        include_uid: letters.contains('u' as u8),
        include_gid: letters.contains('g' as u8),
        include_ctime: letters.contains('t' as u8),
        include_mtime: letters.contains('m' as u8),
        include_atime: letters.contains('a' as u8),
        ..c
    }
}

proof fn lemma_split_on_push_sep(x: Seq<u8>, sep: u8)
    ensures
        split_on(x.push(sep), sep) == split_on(x, sep).push(Seq::empty()),
{
    assert(x.push(sep).drop_last() =~= x);
}

proof fn lemma_split_on_append_plain(x: Seq<u8>, y: Seq<u8>, sep: u8)
    requires
        !y.contains(sep),
    ensures
        split_on(x + y, sep).len() == split_on(x, sep).len(),
        split_on(x + y, sep) == split_on(x, sep).update(
            split_on(x, sep).len() - 1,
            split_on(x, sep).last() + y,
        ),
    decreases y.len(),
{
    lemma_split_on_nonempty(x, sep);
    if y.len() == 0 {
        assert(x + y =~= x);
        assert(split_on(x, sep).last() + y =~= split_on(x, sep).last());
        assert(split_on(x, sep).update(split_on(x, sep).len() - 1, split_on(x, sep).last())
            =~= split_on(x, sep));
    } else {
        let y0 = y.drop_last();
        assert(!y0.contains(sep)) by {
            if y0.contains(sep) {
                let j = choose|j: int| 0 <= j < y0.len() && y0[j] == sep;
                assert(y[j] == sep);
            }
        }
        lemma_split_on_append_plain(x, y0, sep);
        assert((x + y).drop_last() =~= x + y0);
        assert(y[y.len() - 1] != sep);
        assert((x + y).last() == y.last());
        let f = split_on(x, sep);
        assert(split_on(x + y, sep) =~= f.update(f.len() - 1, f.last() + y)) by {
            assert(f.last() + y0 + seq![y.last()] =~= f.last() + y);
            assert((f.last() + y0).push(y.last()) =~= f.last() + y);
        }
    }
}

proof fn lemma_contains_concat(a: Seq<u8>, b: Seq<u8>, x: u8)
    ensures
        (a + b).contains(x) == (a.contains(x) || b.contains(x)),
{
    if a.contains(x) {
        let j = choose|j: int| 0 <= j < a.len() && a[j] == x;
        assert((a + b)[j] == x);
    }
    if b.contains(x) {
        let j = choose|j: int| 0 <= j < b.len() && b[j] == x;
        assert((a + b)[a.len() + j] == x);
    }
    if (a + b).contains(x) {
        let j = choose|j: int| 0 <= j < (a + b).len() && (a + b)[j] == x;
        if j < a.len() {
            assert(a[j] == x);
        } else {
            assert(b[j - a.len()] == x);
        }
    }
}

/// `b` where `on` holds, nothing otherwise.
pub open spec fn byte_if(on: bool, b: u8) -> Seq<u8> {
    if on {
        seq![b]
    } else {
        Seq::empty()
    }
}

/// The flag letters of a policy as bytes.
pub open spec fn letter_bytes(c: Config) -> Seq<u8> {
    byte_if(c.include_file_content, 'c' as u8) + byte_if(c.include_size, 's' as u8) + byte_if(
        c.include_mode,
        'p' as u8,
    ) + byte_if(c.include_uid, 'u' as u8) + byte_if(c.include_gid, 'g' as u8) + byte_if(
        c.include_ctime,
        't' as u8,
    ) + byte_if(c.include_mtime, 'm' as u8) + byte_if(c.include_atime, 'a' as u8)
}

proof fn lemma_letter_bytes_contains(c: Config, x: u8)
    ensures
        letter_bytes(c).contains(x) == (
        (c.include_file_content && x == 'c' as u8)
        || (c.include_size && x == 's' as u8)
        || (c.include_mode && x == 'p' as u8)
        || (c.include_uid && x == 'u' as u8)
        || (c.include_gid && x == 'g' as u8)
        || (c.include_ctime && x == 't' as u8)
        || (c.include_mtime && x == 'm' as u8)
        || (c.include_atime && x == 'a' as u8)),
{
    let b1 = byte_if(c.include_file_content, 'c' as u8);
    let b2 = byte_if(c.include_size, 's' as u8);
    let b3 = byte_if(c.include_mode, 'p' as u8);
    let b4 = byte_if(c.include_uid, 'u' as u8);
    let b5 = byte_if(c.include_gid, 'g' as u8);
    let b6 = byte_if(c.include_ctime, 't' as u8);
    let b7 = byte_if(c.include_mtime, 'm' as u8);
    let b8 = byte_if(c.include_atime, 'a' as u8);
    lemma_contains_concat(b1, b2, x);
    lemma_contains_concat(b1 + b2, b3, x);
    lemma_contains_concat(b1 + b2 + b3, b4, x);
    lemma_contains_concat(b1 + b2 + b3 + b4, b5, x);
    lemma_contains_concat(b1 + b2 + b3 + b4 + b5, b6, x);
    lemma_contains_concat(b1 + b2 + b3 + b4 + b5 + b6, b7, x);
    lemma_contains_concat(b1 + b2 + b3 + b4 + b5 + b6 + b7, b8, x);
    assert(b1.contains(x) == (c.include_file_content && x == 'c' as u8)) by {
        if c.include_file_content { assert(b1[0] == 'c' as u8); }
    }
    assert(b2.contains(x) == (c.include_size && x == 's' as u8)) by {
        if c.include_size { assert(b2[0] == 's' as u8); }
    }
    assert(b3.contains(x) == (c.include_mode && x == 'p' as u8)) by {
        if c.include_mode { assert(b3[0] == 'p' as u8); }
    }
    assert(b4.contains(x) == (c.include_uid && x == 'u' as u8)) by {
        if c.include_uid { assert(b4[0] == 'u' as u8); }
    }
    assert(b5.contains(x) == (c.include_gid && x == 'g' as u8)) by {
        if c.include_gid { assert(b5[0] == 'g' as u8); }
    }
    assert(b6.contains(x) == (c.include_ctime && x == 't' as u8)) by {
        if c.include_ctime { assert(b6[0] == 't' as u8); }
    }
    assert(b7.contains(x) == (c.include_mtime && x == 'm' as u8)) by {
        if c.include_mtime { assert(b7[0] == 'm' as u8); }
    }
    assert(b8.contains(x) == (c.include_atime && x == 'a' as u8)) by {
        if c.include_atime { assert(b8[0] == 'a' as u8); }
    }
}

#[verifier::opaque]
spec fn all_ascii(s: Seq<char>) -> bool {
    is_ascii_chars(s)
}

proof fn lemma_ascii_concat(a: Seq<char>, b: Seq<char>)
    ensures
        ascii_bytes(a + b) == ascii_bytes(a) + ascii_bytes(b),
        all_ascii(a) && all_ascii(b) ==> all_ascii(a + b),
{
    reveal(ascii_bytes);
    reveal(all_ascii);
    assert(ascii_bytes(a + b) =~= ascii_bytes(a) + ascii_bytes(b));
    if is_ascii_chars(a) && is_ascii_chars(b) {
        assert forall|i: int| 0 <= i < (a + b).len() implies '\0' <= #[trigger] (a + b)[i] <= '\u{7f}' by {
            if i < a.len() {
                assert((a + b)[i] == a[i]);
            } else {
                assert((a + b)[i] == b[i - a.len()]);
            }
        }
    }
}

proof fn lemma_letter_ascii(on: bool, ch: char)
    requires
        '\0' <= ch <= '\u{7f}',
    ensures
        ascii_bytes(letter_if(on, ch)) == byte_if(on, ch as u8),
        all_ascii(letter_if(on, ch)),
{
    reveal(ascii_bytes);
    reveal(all_ascii);
    assert(ascii_bytes(letter_if(on, ch)) =~= byte_if(on, ch as u8));
}

proof fn lemma_flags_text_ascii(c: Config)
    ensures
        all_ascii(flags_text(c)),
        ascii_bytes(flags_text(c)) == ascii_bytes(seq!['v', '1']) + seq![':' as u8]
            + ascii_bytes(algorithm_name(c.algorithm)) + seq![':' as u8] + byte_if(c.include_file_content, 'c' as u8) + byte_if(c.include_size, 's' as u8) + byte_if(
        c.include_mode,
        'p' as u8,
    ) + byte_if(c.include_uid, 'u' as u8) + byte_if(c.include_gid, 'g' as u8) + byte_if(
        c.include_ctime,
        't' as u8,
    ) + byte_if(c.include_mtime, 'm' as u8) + byte_if(c.include_atime, 'a' as u8),
{
    let p0 = seq!['v', '1', ':'];
    let p1 = p0 + algorithm_name(c.algorithm);
    let p2 = p1 + seq![':'];
    let l1 = letter_if(c.include_file_content, 'c');
    let l2 = letter_if(c.include_size, 's');
    let l3 = letter_if(c.include_mode, 'p');
    let l4 = letter_if(c.include_uid, 'u');
    let l5 = letter_if(c.include_gid, 'g');
    let l6 = letter_if(c.include_ctime, 't');
    let l7 = letter_if(c.include_mtime, 'm');
    let l8 = letter_if(c.include_atime, 'a');
    assert(ascii_bytes(p0) == ascii_bytes(seq!['v', '1']) + seq![':' as u8]) by {
        reveal(ascii_bytes);
        assert(ascii_bytes(p0) =~= ascii_bytes(seq!['v', '1']) + seq![':' as u8]);
    }
    assert(all_ascii(p0) && all_ascii(algorithm_name(c.algorithm)) && all_ascii(seq![':'])) by {
        reveal(all_ascii);
    }
    assert(ascii_bytes(seq![':']) == seq![':' as u8]) by {
        reveal(ascii_bytes);
        assert(ascii_bytes(seq![':']) =~= seq![':' as u8]);
    }
    lemma_ascii_concat(p0, algorithm_name(c.algorithm));
    lemma_ascii_concat(p1, seq![':']);
    lemma_letter_ascii(c.include_file_content, 'c');
    lemma_letter_ascii(c.include_size, 's');
    lemma_letter_ascii(c.include_mode, 'p');
    lemma_letter_ascii(c.include_uid, 'u');
    lemma_letter_ascii(c.include_gid, 'g');
    lemma_letter_ascii(c.include_ctime, 't');
    lemma_letter_ascii(c.include_mtime, 'm');
    lemma_letter_ascii(c.include_atime, 'a');
    let q1 = p2 + l1;
    let q2 = q1 + l2;
    let q3 = q2 + l3;
    let q4 = q3 + l4;
    let q5 = q4 + l5;
    let q6 = q5 + l6;
    let q7 = q6 + l7;
    let q8 = q7 + l8;
    lemma_ascii_concat(p2, l1);
    lemma_ascii_concat(q1, l2);
    lemma_ascii_concat(q2, l3);
    lemma_ascii_concat(q3, l4);
    lemma_ascii_concat(q4, l5);
    lemma_ascii_concat(q5, l6);
    lemma_ascii_concat(q6, l7);
    lemma_ascii_concat(q7, l8);
    assert(flags_text(c) == q8);
}

proof fn lemma_concat_assoc8(
    h: Seq<u8>,
    b1: Seq<u8>,
    b2: Seq<u8>,
    b3: Seq<u8>,
    b4: Seq<u8>,
    b5: Seq<u8>,
    b6: Seq<u8>,
    b7: Seq<u8>,
    b8: Seq<u8>,
)
    ensures
        h + b1 + b2 + b3 + b4 + b5 + b6 + b7 + b8 == h + (b1 + b2 + b3 + b4 + b5 + b6 + b7 + b8),
{
    assert(h + b1 + b2 + b3 + b4 + b5 + b6 + b7 + b8 =~= h + (b1 + b2 + b3 + b4 + b5 + b6 + b7 + b8));
}

/// The bytes of the canonical flags string: the characters are ASCII, so
/// each is one byte.
proof fn lemma_flags_text_bytes(c: Config)
    ensures
        encode_utf8(flags_text(c)) == ascii_bytes(seq!['v', '1']) + seq![':' as u8]
            + ascii_bytes(algorithm_name(c.algorithm)) + seq![':' as u8] + letter_bytes(c),
{
    let t = flags_text(c);
    lemma_flags_text_ascii(c);
    assert(encode_utf8(t) == ascii_bytes(t)) by {
        reveal(ascii_bytes);
        reveal(all_ascii);
        is_ascii_chars_encode_utf8(t);
        assert(encode_utf8(t) =~= ascii_bytes(t));
    }
    let head = ascii_bytes(seq!['v', '1']) + seq![':' as u8] + ascii_bytes(algorithm_name(c.algorithm)) + seq![':' as u8];
    lemma_concat_assoc8(
        head,
        byte_if(c.include_file_content, 'c' as u8),
        byte_if(c.include_size, 's' as u8),
        byte_if(c.include_mode, 'p' as u8),
        byte_if(c.include_uid, 'u' as u8),
        byte_if(c.include_gid, 'g' as u8),
        byte_if(c.include_ctime, 't' as u8),
        byte_if(c.include_mtime, 'm' as u8),
        byte_if(c.include_atime, 'a' as u8),
    );
}

/// Decoding the canonical flags string of a policy gives back its algorithm
/// and its eight inclusion flags: applying it to the policy changes nothing.
pub proof fn lemma_flags_round_trip(c: Config)
    ensures
        parse_flags(encode_utf8(flags_text(c))) is Ok,
        ({
            let (a, letters) = parse_flags(encode_utf8(flags_text(c)))->Ok_0;
            with_flags(c, a, letters) == c
        }),
{
    reveal(ascii_bytes);
    let colon = ':' as u8;
    let v1 = ascii_bytes(seq!['v', '1']);
    let name = ascii_bytes(algorithm_name(c.algorithm));
    let letters = letter_bytes(c);
    lemma_flags_text_bytes(c);
    assert(!v1.contains(colon)) by {
        if v1.contains(colon) {
            let j = choose|j: int| 0 <= j < v1.len() && v1[j] == colon;
        }
    }
    assert(!name.contains(colon)) by {
        if name.contains(colon) {
            let j = choose|j: int| 0 <= j < name.len() && name[j] == colon;
        }
    }
    assert(!letters.contains(colon)) by {
        lemma_letter_bytes_contains(c, colon);
    }
    lemma_split_three(v1, name, letters, colon);
    assert(parse_algorithm(name) == Some(c.algorithm)) by {
        if c.algorithm == HashAlgorithm::Blake3 {
            assert(name[0] != ascii_bytes(algorithm_name(HashAlgorithm::Sha256))[0]);
        }
    }
    lemma_letter_bytes_contains(c, 'c' as u8);
    lemma_letter_bytes_contains(c, 's' as u8);
    lemma_letter_bytes_contains(c, 'p' as u8);
    lemma_letter_bytes_contains(c, 'u' as u8);
    lemma_letter_bytes_contains(c, 'g' as u8);
    lemma_letter_bytes_contains(c, 't' as u8);
    lemma_letter_bytes_contains(c, 'm' as u8);
    lemma_letter_bytes_contains(c, 'a' as u8);
}

/// The number of `sep` bytes in `s`.
pub open spec fn count_byte(s: Seq<u8>, sep: u8) -> nat
    decreases s.len(),
{
    if s.len() == 0 {
        0
    } else {
        count_byte(s.drop_last(), sep) + if s.last() == sep {
            1nat
        } else {
            0nat
        }
    }
}

proof fn lemma_split_on_len(s: Seq<u8>, sep: u8)
    ensures
        split_on(s, sep).len() == count_byte(s, sep) + 1,
    decreases s.len(),
{
    if s.len() > 0 {
        lemma_split_on_len(s.drop_last(), sep);
        lemma_split_on_nonempty(s.drop_last(), sep);
    }
}

proof fn lemma_split_three(p: Seq<u8>, a: Seq<u8>, l: Seq<u8>, sep: u8)
    requires
        !p.contains(sep),
        !a.contains(sep),
        !l.contains(sep),
    ensures
        split_on(p + seq![sep] + a + seq![sep] + l, sep) == seq![p, a, l],
{
    lemma_split_on_append_plain(Seq::empty(), p, sep);
    assert(split_on(Seq::<u8>::empty(), sep) =~= seq![Seq::<u8>::empty()]);
    assert(Seq::<u8>::empty() + p =~= p);
    assert(split_on(p, sep) =~= seq![p]);
    lemma_split_on_push_sep(p, sep);
    assert(p.push(sep) =~= p + seq![sep]);
    lemma_split_on_append_plain(p + seq![sep], a, sep);
    assert(split_on(p + seq![sep] + a, sep) =~= seq![p, a]);
    lemma_split_on_push_sep(p + seq![sep] + a, sep);
    assert((p + seq![sep] + a).push(sep) =~= p + seq![sep] + a + seq![sep]);
    lemma_split_on_append_plain(p + seq![sep] + a + seq![sep], l, sep);
    assert(split_on(p + seq![sep] + a + seq![sep] + l, sep) =~= seq![p, a, l]);
}

/// A flags string is decoded part by part. Unless it holds exactly two
/// colons it is a format error. Made of three colon-free parts, it is a
/// format error unless the first is `v1`, an algorithm error unless the
/// second names a known algorithm, and otherwise gives that algorithm and
/// the third part as its letters.
pub proof fn lemma_flags_by_parts(s: Seq<u8>, p: Seq<u8>, a: Seq<u8>, l: Seq<u8>)
    ensures
        count_byte(s, ':' as u8) != 2 ==> parse_flags(s) == Err::<(HashAlgorithm, Seq<u8>), ConfigError>(
            ConfigError::FlagsFormat,
        ),
        !p.contains(':' as u8) && !a.contains(':' as u8) && !l.contains(':' as u8) ==> parse_flags(
            p + seq![':' as u8] + a + seq![':' as u8] + l,
        ) == if p != ascii_bytes(seq!['v', '1']) {
            Err(ConfigError::FlagsFormat)
        } else {
            match parse_algorithm(a) {
                Some(x) => Ok((x, l)),
                None => Err(ConfigError::UnknownAlgorithm),
            }
        },
{
    lemma_split_on_len(s, ':' as u8);
    if !p.contains(':' as u8) && !a.contains(':' as u8) && !l.contains(':' as u8) {
        lemma_split_three(p, a, l, ':' as u8);
    }
}

fn contains_byte(v: &Vec<u8>, b: u8) -> (r: bool)
    ensures
        r == v@.contains(b),
{
    let mut i: usize = 0;
    while i < v.len()
        invariant
            i <= v.len(),
            forall|j: int| 0 <= j < i ==> v@[j] != b,
        decreases v.len() - i,
    {
        if v[i] == b {
            return true;
        }
        i = i + 1;
    }
    false
}

/// Splits `s` at every `sep` byte.
fn split_bytes(s: &[u8], sep: u8) -> (r: Vec<Vec<u8>>)
    ensures
        r@.map_values(|v: Vec<u8>| v@) == split_on(s@, sep),
{
    let mut done: Vec<Vec<u8>> = Vec::new();
    let mut cur: Vec<u8> = Vec::new();
    let mut i: usize = 0;
    proof {
        assert(s@.subrange(0, 0) =~= Seq::<u8>::empty());
        assert(done@.map_values(|v: Vec<u8>| v@).push(cur@) =~= split_on(s@.subrange(0, 0), sep));
    }
    while i < s.len()
        invariant
            i <= s.len(),
            done@.map_values(|v: Vec<u8>| v@).push(cur@) == split_on(s@.subrange(0, i as int), sep),
        decreases s.len() - i,
    {
        let ghost before = done@.map_values(|v: Vec<u8>| v@).push(cur@);
        let b = s[i];
        proof {
            assert(s@.subrange(0, i + 1).drop_last() =~= s@.subrange(0, i as int));
        }
        if b == sep {
            let piece = cur;
            done.push(piece);
            cur = Vec::new();
            assert(done@.map_values(|v: Vec<u8>| v@).push(cur@) =~= before.push(Seq::empty()));
        } else {
            cur.push(b);
            assert(done@.map_values(|v: Vec<u8>| v@).push(cur@) =~= before.update(
                before.len() - 1,
                before.last().push(b),
            ));
        }
        i = i + 1;
    }
    done.push(cur);
    assert(s@.subrange(0, s@.len() as int) =~= s@);
    assert(done@.map_values(|v: Vec<u8>| v@) =~= split_on(s@, sep));
    done
}

/// The algorithm `t` names, if any.
fn parse_algorithm_token(t: &Vec<u8>) -> (r: Option<HashAlgorithm>)
    ensures
        r == parse_algorithm(t@),
{
    proof {
        reveal(ascii_bytes);
    }
    if t.len() == 6 && t[0] == 's' as u8 && t[1] == 'h' as u8 && t[2] == 'a' as u8 && t[3] == '2' as u8
        && t[4] == '5' as u8 && t[5] == '6' as u8 {
        assert(t@ =~= ascii_bytes(algorithm_name(HashAlgorithm::Sha256)));
        Some(HashAlgorithm::Sha256)
    } else if t.len() == 6 && t[0] == 'b' as u8 && t[1] == 'l' as u8 && t[2] == 'a' as u8 && t[3]
        == 'k' as u8 && t[4] == 'e' as u8 && t[5] == '3' as u8 {
        assert(t@ =~= ascii_bytes(algorithm_name(HashAlgorithm::Blake3)));
        Some(HashAlgorithm::Blake3)
    } else {
        proof {
            let s = ascii_bytes(algorithm_name(HashAlgorithm::Sha256));
            let b = ascii_bytes(algorithm_name(HashAlgorithm::Blake3));
            if t@ == s {
                assert(s[0] == 's' as u8);
            }
            if t@ == b {
                assert(b[0] == 'b' as u8);
            }
        }
        None
    }
}

fn append_if(s: &mut String, on: bool, letter: &str)
    requires
        letter@.len() == 1,
    ensures
        final(s)@ == old(s)@ + letter_if(on, letter@[0]),
{
    if on {
        s.append(letter);
        assert(letter@ =~= seq![letter@[0]]);
    } else {
        assert(s@ =~= s@ + Seq::<char>::empty());
    }
}

impl Config {
    /// A fresh digest state of this policy's algorithm.
    pub fn hasher(&self) -> (r: Digester)
        ensures
            r.input() == Seq::<u8>::empty(),
            r.algorithm() == self.algorithm,
    {
        Digester::new(self.algorithm)
    }

    /// The canonical flags string of this policy.
    pub fn flags_string(&self) -> (r: String)
        ensures
            r@ == flags_text(*self),
    {
        proof {
            reveal_strlit("v1:");
            reveal_strlit(":");
            reveal_strlit("c");
            reveal_strlit("s");
            reveal_strlit("p");
            reveal_strlit("u");
            reveal_strlit("g");
            reveal_strlit("t");
            reveal_strlit("m");
            reveal_strlit("a");
        }
        let mut s = String::from_str("v1:");
        s.append(self.algorithm.name());
        s.append(":");
        assert(s@ =~= seq!['v', '1', ':'] + algorithm_name(self.algorithm) + seq![':']);
        append_if(&mut s, self.include_file_content, "c");
        append_if(&mut s, self.include_size, "s");
        append_if(&mut s, self.include_mode, "p");
        append_if(&mut s, self.include_uid, "u");
        append_if(&mut s, self.include_gid, "g");
        append_if(&mut s, self.include_ctime, "t");
        append_if(&mut s, self.include_mtime, "m");
        append_if(&mut s, self.include_atime, "a");
        s
    }
    /// Replaces the algorithm and the eight inclusion flags by those the
    /// flags string `flags` states; on a malformed string nothing changes.
    pub fn set_flags_from_string(&mut self, flags: &str) -> (r: Result<(), ConfigError>)
        ensures
            match parse_flags(flags.spec_bytes()) {
                Ok((a, letters)) => r is Ok && *final(self) == with_flags(*old(self), a, letters),
                Err(e) => r == Err::<(), ConfigError>(e) && *final(self) == *old(self),
            },
    {
        let parts = split_bytes(flags.as_bytes(), ':' as u8);
        proof {
            reveal(ascii_bytes);
            lemma_split_on_nonempty(flags.spec_bytes(), ':' as u8);
        }
        if parts.len() != 3 || !(parts[0].len() == 2 && parts[0][0] == 'v' as u8 && parts[0][1]
            == '1' as u8) {
            proof {
                if parts@.len() == 3 && parts@[0]@ == ascii_bytes(seq!['v', '1']) {
                    assert(parts@.map_values(|v: Vec<u8>| v@)[0] == parts@[0]@);
                    assert(ascii_bytes(seq!['v', '1'])[1] == '1' as u8);
                }
            }
            return Err(ConfigError::FlagsFormat);
        }
        proof {
            assert(parts@[0]@ =~= ascii_bytes(seq!['v', '1']));
            assert(parts@.map_values(|v: Vec<u8>| v@)[0] == parts@[0]@);
            assert(parts@.map_values(|v: Vec<u8>| v@)[1] == parts@[1]@);
            assert(parts@.map_values(|v: Vec<u8>| v@)[2] == parts@[2]@);
        }
        let algorithm = match parse_algorithm_token(&parts[1]) {
            Some(a) => a,
            None => {
                return Err(ConfigError::UnknownAlgorithm);
            },
        };
        let letters = &parts[2];
        self.algorithm = algorithm;
        self.include_file_content = contains_byte(letters, 'c' as u8);
        self.include_size = contains_byte(letters, 's' as u8);
        self.include_mode = contains_byte(letters, 'p' as u8);
        self.include_uid = contains_byte(letters, 'u' as u8);
        self.include_gid = contains_byte(letters, 'g' as u8);
        self.include_ctime = contains_byte(letters, 't' as u8);
        self.include_mtime = contains_byte(letters, 'm' as u8);
        self.include_atime = contains_byte(letters, 'a' as u8);
        Ok(())
    }
    /// Resolves `args` into a policy, taking the default worker count from
    /// the number of cores of this machine.
    pub fn try_from_args(args: Args) -> (r: Result<Config, ConfigError>)
        requires
            args.block_size <= usize::MAX / 1024,
        ensures
            match resolution_error(args) {
                Some(e) => r == Err::<Config, ConfigError>(e),
                None => r is Ok && exists|cores: usize| resolves(r->Ok_0, args, cores),
            },
    {
        let cores = available_cores();
        let r = Config::from_args_with_cores(args, cores);
        assert(r is Ok ==> resolves(r->Ok_0, args, cores));
        r
    }

    /// Resolves `args` into a policy on a machine with `cores` cores. A flags
    /// string, where given, overrides the algorithm and all toggles.
    pub fn from_args_with_cores(args: Args, cores: usize) -> (r: Result<Config, ConfigError>)
        requires
            args.block_size <= usize::MAX / 1024,
        ensures
            match resolution_error(args) {
                Some(e) => r == Err::<Config, ConfigError>(e),
                None => r is Ok && resolves(r->Ok_0, args, cores),
            },
    {
        let threads = match args.num_threads {
            Some(n) => n,
            None => if cores < MAX_DEFAULT_THREADS {
                cores
            } else {
                MAX_DEFAULT_THREADS
            },
        };
        let no_target = args.path.is_none() && args.verify.is_none();
        let mut obj = Config {
            path: args.path,
            verbose: args.verbose,
            algorithm: args.algorithm,
            block_size: args.block_size * 1024,
            threads,
            verify: args.verify,
            include_file_content: !args.no_content,
            include_size: !args.no_size,
            include_mode: !args.no_perms && !args.no_mode,
            include_uid: !args.no_perms && !args.no_owner,
            include_gid: !args.no_perms && !args.no_group,
            include_mtime: !args.no_mtime,
            include_ctime: args.ctime,
            include_atime: args.atime,
            stats: Arc::new(SharedStats::new()),
        };
        match args.flags {
            Some(flags) => {
                let res = obj.set_flags_from_string(flags.as_str());
                match res {
                    Ok(()) => {},
                    Err(e) => {
                        return Err(e);
                    },
                }
            },
            None => {},
        }
        if no_target {
            return Err(ConfigError::MissingTarget);
        }
        Ok(obj)
    }
}

} // verus!
