//! The schema of a record: which codec each field uses.

use vstd::prelude::*;
use vstd::utf8::{encode_utf8, encode_utf8_decode_utf8};

use crate::error::{Error, Result};

verus! {

/// The width of an integer on the wire: of a primitive field, or of the
/// prefix that frames a string or a sequence.
#[derive(Clone, Copy, Debug, PartialEq, Eq, Structural)]
pub enum Width {
    /// 8 bits.
    W8,
    /// 16 bits.
    W16,
    /// 32 bits.
    W32,
    /// 64 bits.
    W64,
}

impl Width {
    /// The number of bytes an integer of this width takes on the wire.
    pub open spec fn size(self) -> nat {
        match self {
            Width::W8 => 1,
            Width::W16 => 2,
            Width::W32 => 4,
            Width::W64 => 8,
        }
    }

    /// The largest value an integer of this width holds, `2^W - 1`.
    pub open spec fn limit(self) -> nat {
        match self {
            Width::W8 => 0xff,
            Width::W16 => 0xffff,
            Width::W32 => 0xffff_ffff,
            Width::W64 => 0xffff_ffff_ffff_ffff,
        }
    }

    /// The number of bytes an integer of this width takes on the wire.
    pub fn bytes(self) -> (n: usize)
        ensures
            n == self.size(),
    {
        match self {
            Width::W8 => 1,
            Width::W16 => 2,
            Width::W32 => 4,
            Width::W64 => 8,
        }
    }

    /// The largest value an integer of this width holds.
    pub fn max_value(self) -> (m: u64)
        ensures
            m == self.limit(),
    {
        match self {
            Width::W8 => 0xff,
            Width::W16 => 0xffff,
            Width::W32 => 0xffff_ffff,
            Width::W64 => 0xffff_ffff_ffff_ffff,
        }
    }

    /// A length or count as it goes into a prefix of this width. One that
    /// the width cannot hold is an overflow.
    pub fn check(self, n: usize) -> (r: Result<u64>)
        ensures
            n <= self.limit() ==> r == Ok::<u64, Error>(n as u64),
            n > self.limit() ==> r == Err::<u64, Error>(Error::Overflow),
    {
        if n as u64 > self.max_value() {
            Err(Error::Overflow)
        } else {
            Ok(n as u64)
        }
    }
}

/// How one field is laid out on the wire.
#[derive(Debug, PartialEq, Eq)]
pub enum FieldCodec {
    /// A fixed-width unsigned integer in the configured byte order.
    Primitive(Width),
    /// A string as its UTF-8 bytes followed by one zero byte.
    NullString,
    /// A string as a byte length of the given width, then its UTF-8 bytes.
    PrefixString(Width),
    /// A sequence as an element count of the given width, then the elements.
    CountSeq(Width, Box<FieldCodec>),
    /// A sequence as the byte length of all its elements, of the given
    /// width, then the elements.
    BudgetSeq(Width, Box<FieldCodec>),
    /// A nested record: its fields in order, with no framing of its own.
    Nested(Vec<FieldCodec>),
}

/// What a top-level decode does with input that is left over.
#[derive(Clone, Copy, Debug, PartialEq, Eq, Structural)]
pub enum DecodeMode {
    /// Input left over after the value is a failure.
    Strict,
    /// Input left over after the value is ignored.
    Lenient,
}

/// How the size of a variable-length field is recorded: the kind of framing
/// and the width of its prefix. A string with no policy is null-terminated.
#[derive(Clone, Copy, Debug, PartialEq, Eq, Structural)]
pub enum FramingPolicy {
    /// A string under a byte length.
    PrefixString(Width),
    /// A sequence under an element count.
    CountSeq(Width),
    /// A sequence under a byte budget.
    BudgetSeq(Width),
}

/// Whether two strings hold the same text.
fn same_text(a: &str, b: &str) -> (same: bool)
    ensures
        same == (a@ == b@),
{
    let x = a.as_bytes();
    let y = b.as_bytes();
    proof {
        encode_utf8_decode_utf8(a@);
        encode_utf8_decode_utf8(b@);
    }
    if x.len() != y.len() {
        return false;
    }
    let mut i: usize = 0;
    while i < x.len()
        invariant
            i <= x@.len(),
            x@.len() == y@.len(),
            x@ == encode_utf8(a@),
            y@ == encode_utf8(b@),
            forall|j: int| 0 <= j < i ==> x@[j] == y@[j],
        decreases x@.len() - i,
    {
        if x[i] != y[i] {
            return false;
        }
        i += 1;
    }
    assert(x@ =~= y@);
    true
}

impl FramingPolicy {
    /// The name by which a field declares this policy.
    pub open spec fn name_text(self) -> Seq<char> {
        match self {
            FramingPolicy::PrefixString(Width::W8) => "string8"@,
            FramingPolicy::PrefixString(Width::W16) => "string16"@,
            FramingPolicy::PrefixString(Width::W32) => "string32"@,
            FramingPolicy::PrefixString(Width::W64) => "string64"@,
            FramingPolicy::CountSeq(Width::W8) => "vec8"@,
            FramingPolicy::CountSeq(Width::W16) => "vec16"@,
            FramingPolicy::CountSeq(Width::W32) => "vec32"@,
            FramingPolicy::CountSeq(Width::W64) => "vec64"@,
            FramingPolicy::BudgetSeq(Width::W8) => "vec8b"@,
            FramingPolicy::BudgetSeq(Width::W16) => "vec16b"@,
            FramingPolicy::BudgetSeq(Width::W32) => "vec32b"@,
            FramingPolicy::BudgetSeq(Width::W64) => "vec64b"@,
        }
    }

    /// The name by which a field declares this policy.
    pub fn name(self) -> (name: &'static str)
        ensures
            name@ == self.name_text(),
    {
        match self {
            FramingPolicy::PrefixString(Width::W8) => "string8",
            FramingPolicy::PrefixString(Width::W16) => "string16",
            FramingPolicy::PrefixString(Width::W32) => "string32",
            FramingPolicy::PrefixString(Width::W64) => "string64",
            FramingPolicy::CountSeq(Width::W8) => "vec8",
            FramingPolicy::CountSeq(Width::W16) => "vec16",
            FramingPolicy::CountSeq(Width::W32) => "vec32",
            FramingPolicy::CountSeq(Width::W64) => "vec64",
            FramingPolicy::BudgetSeq(Width::W8) => "vec8b",
            FramingPolicy::BudgetSeq(Width::W16) => "vec16b",
            FramingPolicy::BudgetSeq(Width::W32) => "vec32b",
            FramingPolicy::BudgetSeq(Width::W64) => "vec64b",
        }
    }

    /// The width of the prefix.
    pub fn width(self) -> (width: Width)
        ensures
            width == match self {
                FramingPolicy::PrefixString(w) => w,
                FramingPolicy::CountSeq(w) => w,
                FramingPolicy::BudgetSeq(w) => w,
            },
    {
        match self {
            FramingPolicy::PrefixString(w) => w,
            FramingPolicy::CountSeq(w) => w,
            FramingPolicy::BudgetSeq(w) => w,
        }
    }

    /// The policy that a name declares, if it is the name of one.
    pub open spec fn named(name: Seq<char>) -> Option<FramingPolicy> {
        if exists|policy: FramingPolicy| policy.name_text() == name {
            Some(choose|policy: FramingPolicy| policy.name_text() == name)
        } else {
            None
        }
    }

    /// The policy that a name declares, if it is the name of one.
    pub fn from_name(name: &str) -> (r: Option<FramingPolicy>)
        ensures
            r == Self::named(name@),
            r matches Some(policy) ==> policy.name_text() == name@,
    {
        let all = [
            FramingPolicy::PrefixString(Width::W8),
            FramingPolicy::PrefixString(Width::W16),
            FramingPolicy::PrefixString(Width::W32),
            FramingPolicy::PrefixString(Width::W64),
            FramingPolicy::CountSeq(Width::W8),
            FramingPolicy::CountSeq(Width::W16),
            FramingPolicy::CountSeq(Width::W32),
            FramingPolicy::CountSeq(Width::W64),
            FramingPolicy::BudgetSeq(Width::W8),
            FramingPolicy::BudgetSeq(Width::W16),
            FramingPolicy::BudgetSeq(Width::W32),
            FramingPolicy::BudgetSeq(Width::W64),
        ];
        let mut i: usize = 0;
        while i < 12
            invariant
                i <= 12,
                all@.len() == 12,
                forall|policy: FramingPolicy| #[trigger] all@.contains(policy),
                forall|j: int| 0 <= j < i ==> name@ != (#[trigger] all@[j]).name_text(),
            decreases 12 - i,
        {
            if same_text(name, all[i].name()) {
                proof {
                    lemma_policy_names_differ(all@[i as int], Self::named(name@)->0);
                }
                return Some(all[i]);
            }
            i += 1;
        }
        assert forall|policy: FramingPolicy| name@ != policy.name_text() by {
            assert(all@.contains(policy));
        }
        None
    }
}

/// No two policies share a name.
pub proof fn lemma_policy_names_differ(a: FramingPolicy, b: FramingPolicy)
    ensures
        a != b ==> a.name_text() != b.name_text(),
{
    reveal_strlit("string8");
    reveal_strlit("string16");
    reveal_strlit("string32");
    reveal_strlit("string64");
    reveal_strlit("vec8");
    reveal_strlit("vec16");
    reveal_strlit("vec32");
    reveal_strlit("vec64");
    reveal_strlit("vec8b");
    reveal_strlit("vec16b");
    reveal_strlit("vec32b");
    reveal_strlit("vec64b");
    let x = a.name_text();
    let y = b.name_text();
    if a != b && x.len() == y.len() {
        let last = x.len() - 1;
        assert(x[last] != y[last] || x[last - 1] != y[last - 1] || x[0] != y[0]);
    }
}

} // verus!
