use vstd::prelude::*;

verus! {

/// A 32-byte account address.
#[derive(Clone, Copy, Debug)]
pub struct Pubkey {
    pub bytes: [u8; 32],
}

impl Pubkey {
    pub open spec fn is_zero_spec(&self) -> bool {
        forall|i: int| 0 <= i < 32 ==> #[trigger] self.bytes@[i] == 0u8
    }

    pub fn new_from_array(bytes: [u8; 32]) -> (r: Pubkey)
        ensures
            r.bytes@ == bytes@,
    {
        Pubkey { bytes }
    }

    /// The all-zero address.
    pub fn zeroed() -> (r: Pubkey)
        ensures
            r.is_zero_spec(),
            r.bytes@ == Seq::new(32, |i: int| 0u8),
    {
        let r = Pubkey { bytes: [0u8; 32] };
        assert(r.bytes@ =~= Seq::new(32, |i: int| 0u8));
        r
    }

    /// Byte-wise equality of two addresses.
    pub fn same_key(&self, other: &Pubkey) -> (r: bool)
        ensures
            r == (self.bytes@ == other.bytes@),
    {
        let mut i: usize = 0;
        while i < 32
            invariant
                0 <= i <= 32,
                self.bytes@.len() == 32,
                other.bytes@.len() == 32,
                forall|j: int| 0 <= j < i ==> self.bytes@[j] == other.bytes@[j],
            decreases 32 - i,
        {
            if self.bytes[i] != other.bytes[i] {
                return false;
            }
            i = i + 1;
        }
        assert(self.bytes@ =~= other.bytes@);
        true
    }

    pub fn is_zero(&self) -> (r: bool)
        ensures
            r == self.is_zero_spec(),
    {
        let mut i: usize = 0;
        while i < 32
            invariant
                0 <= i <= 32,
                self.bytes@.len() == 32,
                forall|j: int| 0 <= j < i ==> self.bytes@[j] == 0u8,
            decreases 32 - i,
        {
            if self.bytes[i] != 0 {
                return false;
            }
            i = i + 1;
        }
        true
    }
}

impl PartialEq for Pubkey {
    fn eq(&self, other: &Pubkey) -> (r: bool) {
        self.same_key(other)
    }
}

impl vstd::std_specs::cmp::PartialEqSpecImpl for Pubkey {
    open spec fn obeys_eq_spec() -> bool {
        true
    }

    open spec fn eq_spec(&self, other: &Pubkey) -> bool {
        self.bytes@ == other.bytes@
    }
}

/// Like `Option<Pubkey>`, stored as a key where the all-zero key means "none".
#[derive(Clone, Copy, Debug)]
pub struct NonZeroPubkeyOption {
    pub key: Pubkey,
}

impl NonZeroPubkeyOption {
    /// The address held, or `None` for the all-zero key.
    pub open spec fn view_option(&self) -> Option<Seq<u8>> {
        if self.key.is_zero_spec() {
            None
        } else {
            Some(self.key.bytes@)
        }
    }

    pub fn none() -> (r: NonZeroPubkeyOption)
        ensures
            r.view_option() is None,
    {
        NonZeroPubkeyOption { key: Pubkey::zeroed() }
    }

    pub fn from_option(o: Option<Pubkey>) -> (r: NonZeroPubkeyOption)
        ensures
            r.view_option() == (match o {
                Some(k) => if k.is_zero_spec() { None } else { Some(k.bytes@) },
                None => None,
            }),
    {
        match o {
            Some(key) => NonZeroPubkeyOption { key },
            None => NonZeroPubkeyOption::none(),
        }
    }

    pub fn to_option(&self) -> (r: Option<Pubkey>)
        ensures
            match r {
                Some(k) => self.view_option() == Some(k.bytes@),
                None => self.view_option() is None,
            },
    {
        if self.is_some() {
            Some(self.key)
        } else {
            None
        }
    }

    pub fn is_some(&self) -> (r: bool)
        ensures
            r == self.view_option() is Some,
    {
        !self.key.is_zero()
    }

    pub fn is_none(&self) -> (r: bool)
        ensures
            r == self.view_option() is None,
    {
        self.key.is_zero()
    }

    /// True when an address is held and it equals `other`.
    pub fn eq_key(&self, other: &Pubkey) -> (r: bool)
        ensures
            r == (self.view_option() == Some(other.bytes@)),
    {
        self.is_some() && self.key.same_key(other)
    }
}

impl PartialEq for NonZeroPubkeyOption {
    fn eq(&self, other: &NonZeroPubkeyOption) -> (r: bool) {
        self.key.same_key(&other.key)
    }
}

impl vstd::std_specs::cmp::PartialEqSpecImpl for NonZeroPubkeyOption {
    open spec fn obeys_eq_spec() -> bool {
        true
    }

    open spec fn eq_spec(&self, other: &NonZeroPubkeyOption) -> bool {
        self.key.bytes@ == other.key.bytes@
    }
}

} // verus!
