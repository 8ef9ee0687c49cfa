use crate::algo::{digest, digest_bytes, Digester, Hasher};
use crate::config::Config;
use crate::names::sorted;
use vstd::prelude::*;

verus! {

/// The type of a filesystem entry, read without following a final symlink.
#[derive(Clone, Copy, Debug, PartialEq, Eq, Structural)]
pub enum EntryKind {
    Directory,
    File,
    Symlink,
    BlockDevice,
    CharDevice,
    Fifo,
    Socket,
    Unknown,
}

/// The attributes of an entry that its digest may depend on.
#[derive(Clone, Copy, Debug, PartialEq, Eq, Structural)]
pub struct EntryMeta {
    pub kind: EntryKind,
    pub mode: u32,
    pub size: u64,
    pub uid: u32,
    pub gid: u32,
    pub ctime: i64,
    pub mtime: i64,
    pub atime: i64,
    /// The device identifier of a block or character device.
    pub rdev: u64,
}

/// Errors of the hashing engine.
#[derive(Clone, Copy, Debug, PartialEq, Eq, Structural)]
pub enum HashError {
    /// The entry is none of directory, file, symlink, device, FIFO or socket.
    UnsupportedType,
}

/// The `n` low-order bytes of `x`, least significant first.
pub open spec fn le_bytes(x: nat, n: nat) -> Seq<u8>
    decreases n,
{
    if n == 0 {
        Seq::empty()
    } else {
        seq![(x % 256) as u8] + le_bytes(x / 256, (n - 1) as nat)
    }
}

/// The two's-complement bit pattern of a signed 64-bit value.
pub open spec fn i64_bits(x: i64) -> nat {
    if x >= 0 {
        x as nat
    } else {
        (x + 0x1_0000_0000_0000_0000) as nat
    }
}

/// `bytes` where `on` holds, nothing otherwise.
pub open spec fn field(on: bool, bytes: Seq<u8>) -> Seq<u8> {
    if on {
        bytes
    } else {
        Seq::empty()
    }
}

/// The metadata record of an entry: each included field in fixed order,
/// little-endian; the size only for regular files.
pub open spec fn meta_record(c: Config, m: EntryMeta) -> Seq<u8> {
    field(c.include_mode, le_bytes(m.mode as nat, 4)) + field(
        c.include_size && m.kind == EntryKind::File,
        le_bytes(m.size as nat, 8),
    ) + field(c.include_uid, le_bytes(m.uid as nat, 4)) + field(
        c.include_gid,
        le_bytes(m.gid as nat, 4),
    ) + field(c.include_ctime, le_bytes(i64_bits(m.ctime), 8)) + field(
        c.include_mtime,
        le_bytes(i64_bits(m.mtime), 8),
    ) + field(c.include_atime, le_bytes(i64_bits(m.atime), 8))
}

/// The metadata digest of an entry.
pub open spec fn meta_digest(c: Config, m: EntryMeta) -> Seq<u8> {
    digest(c.algorithm, meta_record(c, m))
}

proof fn lemma_le_bytes_len(x: nat, n: nat)
    ensures
        le_bytes(x, n).len() == n,
    decreases n,
{
    if n > 0 {
        lemma_le_bytes_len(x / 256, (n - 1) as nat);
    }
}

/// Appends the `n` low-order bytes of `x` to `buf`, least significant first.
fn push_le(buf: &mut Vec<u8>, x: u64, n: usize)
    requires
        n <= 8,
    ensures
        final(buf)@ == old(buf)@ + le_bytes(x as nat, n as nat),
{
    let mut v: u64 = x;
    let mut i: usize = 0;
    while i < n
        invariant
            i <= n,
            buf@ + le_bytes(v as nat, (n - i) as nat) == old(buf)@ + le_bytes(x as nat, n as nat),
        decreases n - i,
    {
        let ghost before = buf@;
        buf.push((v % 256) as u8);
        proof {
            assert(buf@ == before + seq![(v % 256) as u8]);
            assert(le_bytes(v as nat, (n - i) as nat) == seq![((v as nat) % 256) as u8] + le_bytes(
                (v as nat) / 256,
                (n - i - 1) as nat,
            ));
            assert(before + le_bytes(v as nat, (n - i) as nat) =~= buf@ + le_bytes(
                (v / 256) as nat,
                (n - i - 1) as nat,
            ));
        }
        v = v / 256;
        i = i + 1;
    }
    assert(buf@ + le_bytes(v as nat, 0) =~= buf@);
}

fn push_field(buf: &mut Vec<u8>, on: bool, x: u64, n: usize)
    requires
        n <= 8,
    ensures
        final(buf)@ == old(buf)@ + field(on, le_bytes(x as nat, n as nat)),
{
    if on {
        push_le(buf, x, n);
    } else {
        assert(buf@ =~= buf@ + Seq::<u8>::empty());
    }
}

/// The two's-complement bit pattern of `x`.
fn i64_to_bits(x: i64) -> (r: u64)
    ensures
        r as nat == i64_bits(x),
{
    if x >= 0 {
        x as u64
    } else {
        ((x + i64::MAX + 1) as u64) + 0x8000_0000_0000_0000u64
    }
}

/// The metadata record of `meta` under the policy `config`.
pub fn encode_meta(config: &Config, meta: &EntryMeta) -> (r: Vec<u8>)
    ensures
        r@ == meta_record(*config, *meta),
{
    let mut buf: Vec<u8> = Vec::new();
    push_field(&mut buf, config.include_mode, meta.mode as u64, 4);
    push_field(&mut buf, config.include_size && meta.kind == EntryKind::File, meta.size, 8);
    push_field(&mut buf, config.include_uid, meta.uid as u64, 4);
    push_field(&mut buf, config.include_gid, meta.gid as u64, 4);
    push_field(&mut buf, config.include_ctime, i64_to_bits(meta.ctime), 8);
    push_field(&mut buf, config.include_mtime, i64_to_bits(meta.mtime), 8);
    push_field(&mut buf, config.include_atime, i64_to_bits(meta.atime), 8);
    assert(buf@ =~= meta_record(*config, *meta));
    buf
}

/// The metadata digest of `meta` under the policy `config`.
pub fn hash_meta(config: &Config, meta: &EntryMeta) -> (r: [u8; 32])
    ensures
        r@ == meta_digest(*config, *meta),
{
    let record = encode_meta(config, meta);
    digest_bytes(config.algorithm, record.as_slice())
}

/// What the engine needs next to digest an entry of a given type.
#[derive(Clone, Copy, Debug, PartialEq, Eq, Structural)]
pub enum Step {
    /// List the directory, sort the names and digest each child.
    HashChildren,
    /// Digest the file's content.
    HashContent,
    /// Read the symlink's target without resolving it.
    ReadLink,
    /// Nothing more is needed.
    Finish,
    /// The entry cannot be digested.
    Unsupported,
}

/// What the engine was given for the step it asked for.
#[derive(Debug)]
pub enum Fetched {
    /// The children's digests, in sorted name order.
    Children(Vec<[u8; 32]>),
    /// The digest of the file's content.
    Content([u8; 32]),
    /// The raw bytes of a symlink's target.
    LinkTarget(Vec<u8>),
    Nothing,
}

/// The step an entry of type `kind` needs under policy `c`.
pub open spec fn step_for(c: Config, kind: EntryKind) -> Step {
    match kind {
        EntryKind::Directory => Step::HashChildren,
        EntryKind::File => if c.include_file_content {
            Step::HashContent
        } else {
            Step::Finish
        },
        EntryKind::Symlink => Step::ReadLink,
        EntryKind::Unknown => Step::Unsupported,
        _ => Step::Finish,
    }
}

/// `f` is what the step `s` asked for.
pub open spec fn answers(s: Step, f: Fetched) -> bool {
    match s {
        Step::HashChildren => f is Children,
        Step::HashContent => f is Content,
        Step::ReadLink => f is LinkTarget,
        _ => f is Nothing,
    }
}

/// Child digests laid end to end.
pub open spec fn concat_digests(ds: Seq<[u8; 32]>) -> Seq<u8>
    decreases ds.len(),
{
    if ds.len() == 0 {
        Seq::empty()
    } else {
        concat_digests(ds.drop_last()) + ds.last()@
    }
}

/// The content digest of a directory: its children's digests in order.
pub open spec fn dir_digest(c: Config, ds: Seq<[u8; 32]>) -> Seq<u8> {
    digest(c.algorithm, concat_digests(ds))
}

/// What an entry contributes after its metadata digest.
pub open spec fn content_input(c: Config, m: EntryMeta, f: Fetched) -> Seq<u8> {
    match f {
        Fetched::Children(ds) => dir_digest(c, ds@),
        Fetched::Content(d) => d@,
        Fetched::LinkTarget(t) => t@,
        Fetched::Nothing => if m.kind == EntryKind::BlockDevice || m.kind == EntryKind::CharDevice {
            le_bytes(m.rdev as nat, 8)
        } else {
            Seq::empty()
        },
    }
}

/// The digest of an entry: its metadata digest followed by its content input.
pub open spec fn entry_digest(c: Config, m: EntryMeta, f: Fetched) -> Seq<u8> {
    digest(c.algorithm, meta_digest(c, m) + content_input(c, m, f))
}

/// The step an entry of type `kind` needs under `config`.
pub fn next_step(config: &Config, kind: EntryKind) -> (r: Step)
    ensures
        r == step_for(*config, kind),
{
    match kind {
        EntryKind::Directory => Step::HashChildren,
        EntryKind::File => if config.include_file_content {
            Step::HashContent
        } else {
            Step::Finish
        },
        EntryKind::Symlink => Step::ReadLink,
        EntryKind::Unknown => Step::Unsupported,
        _ => Step::Finish,
    }
}

/// The content digest of a directory from its children's digests, which
/// come in sorted name order.
pub fn hash_dir(config: &Config, digests: &Vec<[u8; 32]>) -> (r: [u8; 32])
    ensures
        r@ == dir_digest(*config, digests@),
{
    let mut h = config.hasher();
    let mut i: usize = 0;
    while i < digests.len()
        invariant
            i <= digests.len(),
            h.algorithm() == config.algorithm,
            h.input() == concat_digests(digests@.subrange(0, i as int)),
        decreases digests.len() - i,
    {
        let d: &[u8; 32] = &digests[i];
        h.update(d.as_slice());
        proof {
            assert(digests@.subrange(0, i + 1).drop_last() =~= digests@.subrange(0, i as int));
        }
        i = i + 1;
    }
    assert(digests@.subrange(0, digests@.len() as int) =~= digests@);
    h.finalize()
}

/// The digest of an entry with metadata `meta`, given what its step asked
/// for. Fails exactly on entries of unsupported type.
pub fn finish_entry(config: &Config, meta: &EntryMeta, fetched: Fetched) -> (r: Result<
    [u8; 32],
    HashError,
>)
    requires
        answers(step_for(*config, meta.kind), fetched),
    ensures
        meta.kind == EntryKind::Unknown ==> r == Err::<[u8; 32], HashError>(
            HashError::UnsupportedType,
        ),
        meta.kind != EntryKind::Unknown ==> r is Ok && r->Ok_0@ == entry_digest(
            *config,
            *meta,
            fetched,
        ),
{
    if meta.kind == EntryKind::Unknown {
        return Err(HashError::UnsupportedType);
    }
    let ghost f = fetched;
    let mut h = config.hasher();
    let md = hash_meta(config, meta);
    h.update(md.as_slice());
    match fetched {
        Fetched::Children(ds) => {
            let d = hash_dir(config, &ds);
            h.update(d.as_slice());
        },
        Fetched::Content(d) => {
            h.update(d.as_slice());
        },
        Fetched::LinkTarget(t) => {
            h.update(t.as_slice());
        },
        Fetched::Nothing => {
            if meta.kind == EntryKind::BlockDevice || meta.kind == EntryKind::CharDevice {
                let mut b: Vec<u8> = Vec::new();
                push_le(&mut b, meta.rdev, 8);
                assert(b@ =~= le_bytes(meta.rdev as nat, 8));
                h.update(b.as_slice());
            }
        },
    }
    assert(h.input() =~= meta_digest(*config, *meta) + content_input(*config, *meta, f));
    Ok(h.finalize())
}

/// The order in which a directory's entries are listed does not change its
/// digest: two listings with the same names, each as often, sort alike, so
/// children digested by name are folded in the same order.
pub proof fn lemma_dir_digest_ignores_listing_order(
    c: Config,
    a: Seq<Seq<u8>>,
    b: Seq<Seq<u8>>,
    ra: Seq<Seq<u8>>,
    rb: Seq<Seq<u8>>,
    child: spec_fn(Seq<u8>) -> [u8; 32],
)
    requires
        a.to_multiset() == b.to_multiset(),
        sorted(ra),
        ra.to_multiset() == a.to_multiset(),
        sorted(rb),
        rb.to_multiset() == b.to_multiset(),
    ensures
        ra == rb,
        dir_digest(c, ra.map_values(child)) == dir_digest(c, rb.map_values(child)),
{
    crate::names::lemma_listing_order_irrelevant(a, b, ra, rb);
}

/// Two policies that agree on the algorithm and on the eight inclusion flags.
pub open spec fn same_digest_policy(a: Config, b: Config) -> bool {
    &&& a.algorithm == b.algorithm
    &&& a.include_file_content == b.include_file_content
    &&& a.include_size == b.include_size
    &&& a.include_mode == b.include_mode
    &&& a.include_uid == b.include_uid
    &&& a.include_gid == b.include_gid
    &&& a.include_ctime == b.include_ctime
    &&& a.include_mtime == b.include_mtime
    &&& a.include_atime == b.include_atime
}

/// An entry's digest is fixed by the algorithm, the inclusion flags, the
/// entry and what was fetched for it: the worker count, the block size and
/// every other setting leave it unchanged.
pub proof fn lemma_digest_ignores_other_settings(c1: Config, c2: Config, m: EntryMeta, f: Fetched)
    requires
        same_digest_policy(c1, c2),
    ensures
        step_for(c1, m.kind) == step_for(c2, m.kind),
        entry_digest(c1, m, f) == entry_digest(c2, m, f),
{
}

/// With content excluded, a regular file is digested from its metadata
/// alone: its bytes are never asked for.
pub proof fn lemma_content_excluded(c: Config, m: EntryMeta)
    requires
        !c.include_file_content,
        m.kind == EntryKind::File,
    ensures
        step_for(c, m.kind) == Step::Finish,
        entry_digest(c, m, Fetched::Nothing) == digest(c.algorithm, meta_digest(c, m)),
{
    assert(meta_digest(c, m) + Seq::<u8>::empty() =~= meta_digest(c, m));
}

/// Only regular files record their size: entries of any other type that
/// differ in nothing but size have the same metadata record.
pub proof fn lemma_size_only_for_files(c: Config, m1: EntryMeta, m2: EntryMeta)
    requires
        m1.kind != EntryKind::File,
        m2 == (EntryMeta { size: m2.size, ..m1 }),
    ensures
        meta_record(c, m1) == meta_record(c, m2),
        meta_digest(c, m1) == meta_digest(c, m2),
{
}

/// `m1` and `m2` agree on the type, the device identifier, and every
/// attribute that `c` includes.
pub open spec fn agree_on_included(c: Config, m1: EntryMeta, m2: EntryMeta) -> bool {
    &&& m1.kind == m2.kind
    &&& m1.rdev == m2.rdev
    &&& c.include_mode ==> m1.mode == m2.mode
    &&& c.include_size ==> m1.size == m2.size
    &&& c.include_uid ==> m1.uid == m2.uid
    &&& c.include_gid ==> m1.gid == m2.gid
    &&& c.include_ctime ==> m1.ctime == m2.ctime
    &&& c.include_mtime ==> m1.mtime == m2.mtime
    &&& c.include_atime ==> m1.atime == m2.atime
}

/// Touching attributes the policy excludes leaves an entry's digest as it was.
pub proof fn lemma_excluded_fields_ignored(c: Config, m1: EntryMeta, m2: EntryMeta, f: Fetched)
    requires
        agree_on_included(c, m1, m2),
    ensures
        meta_record(c, m1) == meta_record(c, m2),
        entry_digest(c, m1, f) == entry_digest(c, m2, f),
{
}

/// 256 to the power `n`.
pub open spec fn pow256(n: nat) -> nat
    decreases n,
{
    if n == 0 {
        1
    } else {
        256 * pow256((n - 1) as nat)
    }
}

proof fn lemma_le_bytes_injective(x: nat, y: nat, n: nat)
    requires
        x < pow256(n),
        y < pow256(n),
        le_bytes(x, n) == le_bytes(y, n),
    ensures
        x == y,
    decreases n,
{
    if n == 0 {
    } else {
        let p = pow256((n - 1) as nat);
        assert(le_bytes(x, n)[0] == (x % 256) as u8);
        assert(le_bytes(y, n)[0] == (y % 256) as u8);
        assert(le_bytes(x / 256, (n - 1) as nat) =~= le_bytes(x, n).drop_first());
        assert(le_bytes(y / 256, (n - 1) as nat) =~= le_bytes(y, n).drop_first());
        assert(x / 256 < p) by (nonlinear_arith)
            requires
                x < 256 * p,
        ;
        assert(y / 256 < p) by (nonlinear_arith)
            requires
                y < 256 * p,
        ;
        lemma_le_bytes_injective(x / 256, y / 256, (n - 1) as nat);
    }
}

proof fn lemma_pow256_8()
    ensures
        pow256(8) == 0x1_0000_0000_0000_0000,
{
    reveal_with_fuel(pow256, 9);
}

/// Where the policy includes mtime, entries whose mtimes differ have
/// different metadata records.
#[verifier::rlimit(40)]
pub proof fn lemma_included_mtime_recorded(c: Config, m1: EntryMeta, m2: EntryMeta)
    requires
        c.include_mtime,
        m1.mtime != m2.mtime,
        m2 == (EntryMeta { mtime: m2.mtime, ..m1 }),
    ensures
        meta_record(c, m1) != meta_record(c, m2),
{
    let head = field(c.include_mode, le_bytes(m1.mode as nat, 4)) + field(
        c.include_size && m1.kind == EntryKind::File,
        le_bytes(m1.size as nat, 8),
    ) + field(c.include_uid, le_bytes(m1.uid as nat, 4)) + field(
        c.include_gid,
        le_bytes(m1.gid as nat, 4),
    ) + field(c.include_ctime, le_bytes(i64_bits(m1.ctime), 8));
    let b1 = le_bytes(i64_bits(m1.mtime), 8);
    let b2 = le_bytes(i64_bits(m2.mtime), 8);
    let tail = field(c.include_atime, le_bytes(i64_bits(m1.atime), 8));
    lemma_le_bytes_len(i64_bits(m1.mtime), 8);
    lemma_le_bytes_len(i64_bits(m2.mtime), 8);
    lemma_pow256_8();
    if meta_record(c, m1) == meta_record(c, m2) {
        assert(meta_record(c, m1) == head + b1 + tail);
        assert(meta_record(c, m2) == head + b2 + tail);
        assert(b1 =~= (head + b1 + tail).subrange(head.len() as int, head.len() as int + 8));
        assert(b2 =~= (head + b2 + tail).subrange(head.len() as int, head.len() as int + 8));
        lemma_le_bytes_injective(i64_bits(m1.mtime), i64_bits(m2.mtime), 8);
    }
}

/// Two different child digests folded in swapped order give a different
/// directory digest input: which name holds which content matters.
pub proof fn lemma_swapped_children_change_input(d1: [u8; 32], d2: [u8; 32])
    requires
        d1@ != d2@,
    ensures
        concat_digests(seq![d1, d2]) != concat_digests(seq![d2, d1]),
{
    assert(seq![d1, d2].drop_last() =~= seq![d1]);
    assert(seq![d2, d1].drop_last() =~= seq![d2]);
    assert(seq![d1].drop_last() =~= Seq::<[u8; 32]>::empty());
    assert(seq![d2].drop_last() =~= Seq::<[u8; 32]>::empty());
    let x = concat_digests(seq![d1, d2]);
    let y = concat_digests(seq![d2, d1]);
    assert(concat_digests(Seq::<[u8; 32]>::empty()) == Seq::<u8>::empty());
    assert(concat_digests(seq![d1]) == Seq::<u8>::empty() + d1@);
    assert(concat_digests(seq![d2]) == Seq::<u8>::empty() + d2@);
    assert(x == concat_digests(seq![d1]) + d2@);
    assert(y == concat_digests(seq![d2]) + d1@);
    assert(x =~= d1@ + d2@);
    assert(y =~= d2@ + d1@);
    assert(x.subrange(0, 32) =~= d1@);
    assert(y.subrange(0, 32) =~= d2@);
}

/// With content included, a regular file whose content digest changes has a
/// different entry digest input, whatever its metadata.
pub proof fn lemma_content_included_changes_input(c: Config, m: EntryMeta, d1: [u8; 32], d2: [u8; 32])
    requires
        c.include_file_content,
        m.kind == EntryKind::File,
        d1@ != d2@,
    ensures
        step_for(c, m.kind) == Step::HashContent,
        meta_digest(c, m) + content_input(c, m, Fetched::Content(d1)) != meta_digest(c, m)
            + content_input(c, m, Fetched::Content(d2)),
{
    let md = meta_digest(c, m);
    assert((md + d1@).subrange(md.len() as int, md.len() as int + 32) =~= d1@);
    assert((md + d2@).subrange(md.len() as int, md.len() as int + 32) =~= d2@);
}

} // verus!
