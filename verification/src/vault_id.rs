//! Vault identifiers: the 32-byte id of the `n`-th vault holds `n` in
//! big-endian order in its first eight bytes and zeros after them.
use vstd::prelude::*;

verus! {

/// Byte `k` (below 8) of `n` in big-endian order.
pub open spec fn be_byte(n: u64, k: int) -> u8 {
    if k == 0 {
        ((n >> 56u64) & 0xffu64) as u8
    } else if k == 1 {
        ((n >> 48u64) & 0xffu64) as u8
    } else if k == 2 {
        ((n >> 40u64) & 0xffu64) as u8
    } else if k == 3 {
        ((n >> 32u64) & 0xffu64) as u8
    } else if k == 4 {
        ((n >> 24u64) & 0xffu64) as u8
    } else if k == 5 {
        ((n >> 16u64) & 0xffu64) as u8
    } else if k == 6 {
        ((n >> 8u64) & 0xffu64) as u8
    } else {
        (n & 0xffu64) as u8
    }
}

/// The id bytes of the vault with counter `n`.
pub open spec fn vault_id_bytes(n: u64) -> Seq<u8> {
    Seq::new(32, |k: int| if k < 8 { be_byte(n, k) } else { 0u8 })
}

/// Index of the vault with id bytes `id` among the first `count` vaults, or
/// -1 when none has that id.
pub open spec fn id_index(count: int, id: Seq<u8>) -> int {
    if exists|k: int| 0 <= k < count && #[trigger] vault_id_bytes((k + 1) as u64) == id {
        choose|k: int| 0 <= k < count && #[trigger] vault_id_bytes((k + 1) as u64) == id
    } else {
        -1
    }
}

/// Unique identifier of a vault.
#[derive(Clone, Copy, Debug, PartialEq, Eq)]
pub struct VaultId(pub [u8; 32]);

impl VaultId {
    pub fn new(bytes: [u8; 32]) -> (r: Self)
        ensures
            r.0 == bytes,
    {
        Self(bytes)
    }

    pub fn as_bytes(&self) -> (r: &[u8; 32])
        ensures
            *r == self.0,
    {
        &self.0
    }
}

/// Distinct counters have distinct ids.
pub proof fn lemma_vault_id_injective(a: u64, b: u64)
    requires
        vault_id_bytes(a) == vault_id_bytes(b),
    ensures
        a == b,
{
    let ia = vault_id_bytes(a);
    let ib = vault_id_bytes(b);
    assert(ia[0] == ib[0]);
    assert(ia[1] == ib[1]);
    assert(ia[2] == ib[2]);
    assert(ia[3] == ib[3]);
    assert(ia[4] == ib[4]);
    assert(ia[5] == ib[5]);
    assert(ia[6] == ib[6]);
    assert(ia[7] == ib[7]);
    assert(a == b) by (bit_vector)
        requires
            ((a >> 56u64) & 0xffu64) as u8 == ((b >> 56u64) & 0xffu64) as u8,
            ((a >> 48u64) & 0xffu64) as u8 == ((b >> 48u64) & 0xffu64) as u8,
            ((a >> 40u64) & 0xffu64) as u8 == ((b >> 40u64) & 0xffu64) as u8,
            ((a >> 32u64) & 0xffu64) as u8 == ((b >> 32u64) & 0xffu64) as u8,
            ((a >> 24u64) & 0xffu64) as u8 == ((b >> 24u64) & 0xffu64) as u8,
            ((a >> 16u64) & 0xffu64) as u8 == ((b >> 16u64) & 0xffu64) as u8,
            ((a >> 8u64) & 0xffu64) as u8 == ((b >> 8u64) & 0xffu64) as u8,
            (a & 0xffu64) as u8 == (b & 0xffu64) as u8,
    ;
}

/// The id of the vault with counter `c` (`1 <= c <= count`) sits at index
/// `c - 1`.
pub proof fn lemma_id_index_of(count: int, c: u64)
    requires
        1 <= c <= count <= u64::MAX,
    ensures
        id_index(count, vault_id_bytes(c)) == c - 1,
{
    let k0 = (c - 1) as int;
    assert(vault_id_bytes((k0 + 1) as u64) == vault_id_bytes(c));
    let k = choose|k: int| 0 <= k < count && #[trigger] vault_id_bytes((k + 1) as u64) == vault_id_bytes(c);
    lemma_vault_id_injective((k + 1) as u64, c);
}

/// Adding a vault keeps the index of every id that was already present.
pub proof fn lemma_id_index_grow(count: int, id: Seq<u8>)
    requires
        0 <= count < u64::MAX,
        id_index(count, id) >= 0,
    ensures
        id_index(count + 1, id) == id_index(count, id),
{
    let k = id_index(count, id);
    assert(vault_id_bytes((k + 1) as u64) == id);
    lemma_id_index_of(count + 1, (k + 1) as u64);
    lemma_id_index_of(count, (k + 1) as u64);
}

/// After adding a vault, an id that was absent is either the new vault's
/// id or still absent.
pub proof fn lemma_id_index_new(count: int, id: Seq<u8>)
    requires
        0 <= count < u64::MAX,
        id_index(count, id) < 0,
    ensures
        id == vault_id_bytes((count + 1) as u64) ==> id_index(count + 1, id) == count,
        id != vault_id_bytes((count + 1) as u64) ==> id_index(count + 1, id) < 0,
{
    if id == vault_id_bytes((count + 1) as u64) {
        lemma_id_index_of(count + 1, (count + 1) as u64);
    } else {
        if exists|k: int| 0 <= k < count + 1 && #[trigger] vault_id_bytes((k + 1) as u64) == id {
            let k = choose|k: int| 0 <= k < count + 1 && #[trigger] vault_id_bytes((k + 1) as u64) == id;
            assert(k < count);
            assert(false);
        }
    }
}

/// The id of the vault with counter `n`.
pub fn generate_vault_id(n: u64) -> (r: [u8; 32])
    ensures
        r@ == vault_id_bytes(n),
{
    let mut bytes = [0u8; 32];
    bytes[0] = ((n >> 56u64) & 0xffu64) as u8;
    bytes[1] = ((n >> 48u64) & 0xffu64) as u8;
    bytes[2] = ((n >> 40u64) & 0xffu64) as u8;
    bytes[3] = ((n >> 32u64) & 0xffu64) as u8;
    bytes[4] = ((n >> 24u64) & 0xffu64) as u8;
    bytes[5] = ((n >> 16u64) & 0xffu64) as u8;
    bytes[6] = ((n >> 8u64) & 0xffu64) as u8;
    bytes[7] = (n & 0xffu64) as u8;
    assert(bytes@ =~= vault_id_bytes(n));
    bytes
}

/// The counter in the first eight bytes of `bytes`, read big-endian.
fn leading_counter(bytes: &[u8; 32]) -> (r: u64)
    ensures
        forall|n: u64| bytes@ == vault_id_bytes(n) ==> r == n,
{
    let r = ((bytes[0] as u64) << 56u64) | ((bytes[1] as u64) << 48u64) | ((bytes[2] as u64)
        << 40u64) | ((bytes[3] as u64) << 32u64) | ((bytes[4] as u64) << 24u64) | ((bytes[5] as u64)
        << 16u64) | ((bytes[6] as u64) << 8u64) | (bytes[7] as u64);
    assert forall|n: u64| bytes@ == vault_id_bytes(n) implies r == n by {
        let b = vault_id_bytes(n);
        assert(bytes@[0] == b[0]);
        assert(bytes@[1] == b[1]);
        assert(bytes@[2] == b[2]);
        assert(bytes@[3] == b[3]);
        assert(bytes@[4] == b[4]);
        assert(bytes@[5] == b[5]);
        assert(bytes@[6] == b[6]);
        assert(bytes@[7] == b[7]);
        lemma_counter_roundtrip(n);
    }
    r
}

/// Reading back the leading bytes of `n`'s id gives `n`.
proof fn lemma_counter_roundtrip(n: u64)
    ensures
        ((((n >> 56u64) & 0xffu64) as u8 as u64) << 56u64) | ((((n >> 48u64) & 0xffu64) as u8 as u64)
            << 48u64) | ((((n >> 40u64) & 0xffu64) as u8 as u64) << 40u64) | ((((n >> 32u64)
            & 0xffu64) as u8 as u64) << 32u64) | ((((n >> 24u64) & 0xffu64) as u8 as u64) << 24u64)
            | ((((n >> 16u64) & 0xffu64) as u8 as u64) << 16u64) | ((((n >> 8u64) & 0xffu64) as u8
            as u64) << 8u64) | ((n & 0xffu64) as u8 as u64) == n,
{
    assert(((((n >> 56u64) & 0xffu64) as u8 as u64) << 56u64) | ((((n >> 48u64) & 0xffu64) as u8
        as u64) << 48u64) | ((((n >> 40u64) & 0xffu64) as u8 as u64) << 40u64) | ((((n >> 32u64)
        & 0xffu64) as u8 as u64) << 32u64) | ((((n >> 24u64) & 0xffu64) as u8 as u64) << 24u64)
        | ((((n >> 16u64) & 0xffu64) as u8 as u64) << 16u64) | ((((n >> 8u64) & 0xffu64) as u8
        as u64) << 8u64) | ((n & 0xffu64) as u8 as u64) == n) by (bit_vector);
}

/// Whether the two 32-byte values are equal.
pub fn bytes_eq(a: &[u8; 32], b: &[u8; 32]) -> (r: bool)
    ensures
        r == (a@ == b@),
{
    let mut i: usize = 0;
    while i < 32
        invariant
            i <= 32,
            a@.len() == 32,
            b@.len() == 32,
            forall|j: int| 0 <= j < i ==> a@[j] == b@[j],
        decreases 32 - i,
    {
        if a[i] != b[i] {
            return false;
        }
        i += 1;
    }
    assert(a@ =~= b@);
    true
}

/// Index of the vault with id `id` among the first `count` vaults.
pub fn find_vault_index(count: usize, id: &VaultId) -> (r: Option<usize>)
    ensures
        r matches Some(k) ==> k as int == id_index(count as int, id.0@) && 0 <= k < count,
        r is None ==> id_index(count as int, id.0@) < 0,
{
    let c = leading_counter(&id.0);
    if c == 0 || c as u128 > count as u128 {
        proof {
            if id_index(count as int, id.0@) >= 0 {
                let k = id_index(count as int, id.0@);
                assert(vault_id_bytes((k + 1) as u64) == id.0@);
            }
        }
        return None;
    }
    let expected = generate_vault_id(c);
    if bytes_eq(&expected, &id.0) {
        proof {
            lemma_id_index_of(count as int, c);
        }
        Some((c - 1) as usize)
    } else {
        proof {
            if id_index(count as int, id.0@) >= 0 {
                let k = id_index(count as int, id.0@);
                assert(vault_id_bytes((k + 1) as u64) == id.0@);
            }
        }
        None
    }
}

} // verus!
