use crate::config::{parse_flags, with_flags, Config, ConfigError};
use crate::hash::{entry_digest, same_digest_policy, EntryMeta, Fetched};
use crate::stats::StatsSnapshot;
use std::time::Duration;
use vstd::prelude::*;
use vstd::utf8::encode_utf8;

verus! {

/// The lowercase hexadecimal digit of `n` (below 16).
pub open spec fn hex_digit(n: nat) -> char {
    seq!['0', '1', '2', '3', '4', '5', '6', '7', '8', '9', 'a', 'b', 'c', 'd', 'e', 'f'][n as int]
}

/// Two lowercase hexadecimal digits per byte, high nibble first.
pub open spec fn hex_text(b: Seq<u8>) -> Seq<char>
    decreases b.len(),
{
    if b.len() == 0 {
        Seq::empty()
    } else {
        hex_text(b.drop_last()) + seq![
            hex_digit((b.last() / 16) as nat),
            hex_digit((b.last() % 16) as nat),
        ]
    }
}

/// Relies on `hex::encode`: two lowercase hexadecimal digits per byte, in order.
#[verifier::external_body]
fn hex_encode(b: &[u8]) -> (r: String)
    ensures
        r@ == hex_text(b@),
{
    hex::encode(b)
}

/// The whole nanoseconds of a duration.
pub uninterp spec fn nanos_of(d: Duration) -> u128;

/// Relies on `Duration::as_nanos`: the duration in whole nanoseconds, which
/// depends on the duration alone.
#[verifier::external_body]
fn duration_nanos(d: &Duration) -> (r: u128)
    ensures
        r == nanos_of(*d),
{
    d.as_nanos()
}

/// Nanoseconds per hundredth of a second.
pub const NANOS_PER_CENTI: u128 = 10_000_000;

/// `nanos` in hundredths of a second, rounded to the nearest, halves up.
pub open spec fn centis_of(nanos: u128) -> int {
    (nanos as int + NANOS_PER_CENTI as int / 2) / NANOS_PER_CENTI as int
}

/// `nanos` in hundredths of a second, rounded to the nearest, saturating
/// at `u64::MAX`.
pub open spec fn rounded_centis(nanos: u128) -> u64 {
    if centis_of(nanos) <= u64::MAX {
        centis_of(nanos) as u64
    } else {
        u64::MAX
    }
}

/// The record of a run, from which a later run recovers its policy and
/// against whose digest it compares.
#[derive(Debug)]
pub struct HashResultJson {
    /// The target, as the bytes of its path.
    pub name: Vec<u8>,
    /// The digest in lowercase hexadecimal.
    pub hash: String,
    /// The flags string of the policy that produced the digest.
    pub flags: String,
    pub entries: Option<u64>,
    pub bytes: Option<u64>,
    /// Elapsed wall time in hundredths of a second.
    pub elapsed_centis: Option<u64>,
}

/// Rounds `nanos` to hundredths of a second, saturating at `u64::MAX`.
pub fn centis_from_nanos(nanos: u128) -> (r: u64)
    ensures
        r == rounded_centis(nanos),
{
    let c: u128 = if nanos > u128::MAX - NANOS_PER_CENTI / 2 {
        u128::MAX / NANOS_PER_CENTI + 1
    } else {
        (nanos + NANOS_PER_CENTI / 2) / NANOS_PER_CENTI
    };
    if c > u64::MAX as u128 {
        u64::MAX
    } else {
        c as u64
    }
}

impl HashResultJson {
    /// The record of a run of `config` that produced `hash`, with the
    /// counters of `stats`.
    pub fn from_parts(config: &Config, hash: &[u8; 32], stats: &StatsSnapshot) -> (r: Self)
        requires
            config.path is Some,
        ensures
            r.name@ == config.path->Some_0@,
            r.hash@ == hex_text(hash@),
            r.flags@ == crate::config::flags_text(*config),
            r.entries == Some(stats.entries_total),
            r.bytes == Some(stats.bytes_total),
            r.elapsed_centis == Some(rounded_centis(nanos_of(stats.elapsed))),
    {
        let name = match &config.path {
            Some(p) => {
                let n = p.clone();
                assert(n@ =~= p@);
                n
            },
            None => Vec::new(),
        };
        HashResultJson {
            name,
            hash: hex_encode(hash.as_slice()),
            flags: config.flags_string(),
            entries: Some(stats.entries_total),
            bytes: Some(stats.bytes_total),
            elapsed_centis: Some(centis_from_nanos(duration_nanos(&stats.elapsed))),
        }
    }

    /// The record of a run of `config` that produced `hash`, with the
    /// counters as they stand now.
    pub fn from_result(config: &Config, hash: &[u8; 32]) -> (r: Self)
        requires
            config.path is Some,
        ensures
            r.name@ == config.path->Some_0@,
            r.hash@ == hex_text(hash@),
            r.flags@ == crate::config::flags_text(*config),
            exists|s: StatsSnapshot|
                r.entries == Some(s.entries_total) && r.bytes == Some(s.bytes_total)
                    && r.elapsed_centis == Some(rounded_centis(nanos_of(s.elapsed))),
    {
        let stats = config.stats.snapshot();
        let r = HashResultJson::from_parts(config, hash, &stats);
        assert(r.entries == Some(stats.entries_total) && r.bytes == Some(stats.bytes_total)
            && r.elapsed_centis == Some(rounded_centis(nanos_of(stats.elapsed))));
        r
    }
}

/// Whether `computed` is the digest that `expected` records in hexadecimal.
pub fn digest_matches(expected: &String, computed: &[u8; 32]) -> (r: bool)
    ensures
        r == (expected@ == hex_text(computed@)),
{
    let h = hex_encode(computed.as_slice());
    *expected == h
}

impl Config {
    /// Takes the policy a reference record was produced with: its flags
    /// string overrides the flags, and its name becomes the target where
    /// none was given. On a malformed flags string nothing changes.
    pub fn adopt_reference(&mut self, reference: &HashResultJson) -> (r: Result<(), ConfigError>)
        ensures
            match parse_flags(encode_utf8(reference.flags@)) {
                Ok((a, letters)) => r is Ok && *final(self) == (Config {
                    path: final(self).path,
                    ..with_flags(*old(self), a, letters)
                }) && (old(self).path is Some ==> final(self).path == old(self).path) && (
                old(self).path is None ==> final(self).path is Some && final(self).path->Some_0@
                    == reference.name@),
                Err(e) => r == Err::<(), ConfigError>(e) && *final(self) == *old(self),
            },
    {
        let res = self.set_flags_from_string(reference.flags.as_str());
        match res {
            Ok(()) => {},
            Err(e) => {
                return Err(e);
            },
        }
        if self.path.is_none() {
            let n = reference.name.clone();
            assert(n@ =~= reference.name@);
            self.path = Some(n);
        }
        Ok(())
    }
}

proof fn lemma_hex_text_len(b: Seq<u8>)
    ensures
        hex_text(b).len() == 2 * b.len(),
    decreases b.len(),
{
    if b.len() > 0 {
        lemma_hex_text_len(b.drop_last());
    }
}

proof fn lemma_hex_digit_injective(x: nat, y: nat)
    requires
        x < 16,
        y < 16,
        hex_digit(x) == hex_digit(y),
    ensures
        x == y,
{
}

/// Distinct byte strings of one length have distinct hexadecimal texts.
pub proof fn lemma_hex_text_injective(a: Seq<u8>, b: Seq<u8>)
    requires
        a.len() == b.len(),
        hex_text(a) == hex_text(b),
    ensures
        a == b,
    decreases a.len(),
{
    if a.len() > 0 {
        let ha = hex_text(a.drop_last());
        let hb = hex_text(b.drop_last());
        lemma_hex_text_len(a.drop_last());
        lemma_hex_text_len(b.drop_last());
        let da = seq![hex_digit((a.last() / 16) as nat), hex_digit((a.last() % 16) as nat)];
        let db = seq![hex_digit((b.last() / 16) as nat), hex_digit((b.last() % 16) as nat)];
        assert(ha =~= (ha + da).subrange(0, ha.len() as int));
        assert(hb =~= (hb + db).subrange(0, hb.len() as int));
        assert((ha + da)[ha.len() as int] == da[0]);
        assert((hb + db)[hb.len() as int] == db[0]);
        assert((ha + da)[ha.len() as int + 1] == da[1]);
        assert((hb + db)[hb.len() as int + 1] == db[1]);
        lemma_hex_text_injective(a.drop_last(), b.drop_last());
        lemma_hex_digit_injective((a.last() / 16) as nat, (b.last() / 16) as nat);
        lemma_hex_digit_injective((a.last() % 16) as nat, (b.last() % 16) as nat);
        assert(a.last() == b.last());
        assert(a =~= a.drop_last().push(a.last()));
        assert(b =~= b.drop_last().push(b.last()));
    }
}

/// Verifying an untouched entry against the record of an earlier run
/// matches: under a policy with the same algorithm and flags, the same
/// entry and the same fetched parts give the digest the record holds. A
/// different digest never matches the record.
pub proof fn lemma_verification_symmetry(
    c1: Config,
    c2: Config,
    m: EntryMeta,
    f: Fetched,
    first: [u8; 32],
    again: [u8; 32],
    recorded: Seq<char>,
)
    requires
        same_digest_policy(c1, c2),
        first@ == entry_digest(c1, m, f),
        recorded == hex_text(first@),
    ensures
        again@ == entry_digest(c2, m, f) ==> recorded == hex_text(again@),
        again@ != first@ ==> recorded != hex_text(again@),
{
    crate::hash::lemma_digest_ignores_other_settings(c1, c2, m, f);
    if again@ != first@ && recorded == hex_text(again@) {
        lemma_hex_text_injective(first@, again@);
    }
}

} // verus!
