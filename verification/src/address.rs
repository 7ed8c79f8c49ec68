use vstd::prelude::*;

verus! {

/// An account address: 32 bytes, normally obtained by deterministic
/// derivation from a namespace tag and owner-bound seeds.
pub struct Address {
    bytes: Vec<u8>,
}

/// What address derivation returns for a seed list under a program id:
/// the derived address bytes together with the bump disambiguator, or
/// nothing when no bump yields a valid derived address.
pub uninterp spec fn derived_pair(seeds: Seq<Seq<u8>>, program_id: Seq<u8>) -> Option<(Seq<u8>, u8)>;

/// The byte sequences of a seed list.
pub open spec fn seeds_view(seeds: Seq<Vec<u8>>) -> Seq<Seq<u8>> {
    seeds.map_values(|s: Vec<u8>| s@)
}

/// Whether `claimed` together with `bump` is exactly what derivation from
/// `seeds` under `program_id` produces.
pub open spec fn matches_derivation(
    claimed: Seq<u8>,
    bump: u8,
    seeds: Seq<Seq<u8>>,
    program_id: Seq<u8>,
) -> bool {
    derived_pair(seeds, program_id) == Some((claimed, bump))
}

pub(crate) fn clone_bytes(v: &Vec<u8>) -> (r: Vec<u8>)
    ensures
        r@ == v@,
{
    let r = v.clone();
    proof {
        assert(r@ =~= v@);
    }
    r
}

impl View for Address {
    type V = Seq<u8>;

    closed spec fn view(&self) -> Seq<u8> {
        self.bytes@
    }
}

impl Clone for Address {
    fn clone(&self) -> (r: Self)
        ensures
            r@ == self@,
    {
        proof {
            use_type_invariant(self);
        }
        Address { bytes: clone_bytes(&self.bytes) }
    }
}

impl Address {
    /// Every address holds exactly 32 bytes.
    #[verifier::type_invariant]
    spec fn inv(&self) -> bool {
        self.bytes@.len() == 32
    }

    /// Wraps raw bytes as an address; refused unless exactly 32 bytes.
    pub fn from_bytes(bytes: Vec<u8>) -> (r: Option<Address>)
        ensures
            match r {
                Some(a) => a@ == bytes@,
                None => bytes@.len() != 32,
            },
    {
        if bytes.len() == 32 {
            Some(Address { bytes })
        } else {
            None
        }
    }

    /// The address bytes, borrowed.
    pub fn as_bytes(&self) -> (r: &Vec<u8>)
        ensures
            r@ == self@,
    {
        &self.bytes
    }

    /// The address bytes, owned.
    pub fn to_bytes(&self) -> (r: Vec<u8>)
        ensures
            r@ == self@,
    {
        clone_bytes(&self.bytes)
    }

    /// Byte-for-byte comparison of two addresses.
    pub fn equals(&self, other: &Address) -> (r: bool)
        ensures
            r == (self@ == other@),
    {
        if self.bytes.len() != other.bytes.len() {
            return false;
        }
        let mut i: usize = 0;
        while i < self.bytes.len()
            invariant
                i <= self.bytes@.len(),
                self.bytes@.len() == other.bytes@.len(),
                forall|j: int| 0 <= j < i ==> self.bytes@[j] == other.bytes@[j],
            decreases self.bytes@.len() - i,
        {
            if self.bytes[i] != other.bytes[i] {
                return false;
            }
            i = i + 1;
        }
        proof {
            assert(self@ =~= other@);
        }
        true
    }
}

/// Relies on `Pubkey::try_find_program_address` (anchor_lang's re-export of
/// `solana_address::Address::try_find_program_address`): a deterministic
/// computation from the seed bytes and the program id alone, returning
/// `None` when no bump seed yields a valid derived address.
#[verifier::external_body]
fn find_derived(seeds: &Vec<Vec<u8>>, program_id: &Address) -> (r: Option<(Address, u8)>)
    ensures
        match r {
            Some(p) => derived_pair(seeds_view(seeds@), program_id@) == Some((p.0@, p.1)),
            None => derived_pair(seeds_view(seeds@), program_id@) is None,
        },
{
    let refs: Vec<&[u8]> = seeds.iter().map(|s| s.as_slice()).collect();
    let arr: [u8; 32] = program_id.bytes.as_slice().try_into().expect("a well-formed address has 32 bytes");
    let pid = anchor_lang::prelude::Pubkey::new_from_array(arr);
    anchor_lang::prelude::Pubkey::try_find_program_address(&refs, &pid)
        .map(|(a, b)| (Address { bytes: a.to_bytes().to_vec() }, b))
}

/// Derives the account address and bump for a seed list under a program id.
pub fn derive(seeds: &Vec<Vec<u8>>, program_id: &Address) -> (r: Option<(Address, u8)>)
    ensures
        match r {
            Some(p) => matches_derivation(p.0@, p.1, seeds_view(seeds@), program_id@),
            None => derived_pair(seeds_view(seeds@), program_id@) is None,
        },
{
    find_derived(seeds, program_id)
}

/// Checks that a claimed address and bump are exactly what derivation from
/// `seeds` under `program_id` produces.
pub fn verify_derived(
    claimed: &Address,
    bump: u8,
    seeds: &Vec<Vec<u8>>,
    program_id: &Address,
) -> (r: bool)
    ensures
        r == matches_derivation(claimed@, bump, seeds_view(seeds@), program_id@),
{
    match find_derived(seeds, program_id) {
        Some(p) => {
            let (addr, b) = p;
            addr.equals(claimed) && b == bump
        },
        None => false,
    }
}

/// Re-deriving from the same seeds and program id always yields the same
/// address and bump: derivation is a function of its inputs alone.
pub proof fn lemma_derivation_deterministic(
    seeds: Seq<Seq<u8>>,
    program_id: Seq<u8>,
    first: Option<(Seq<u8>, u8)>,
    second: Option<(Seq<u8>, u8)>,
)
    requires
        first == derived_pair(seeds, program_id),
        second == derived_pair(seeds, program_id),
    ensures
        first == second,
{
}

} // verus!
