use vstd::prelude::*;

verus! {

/// Content identifier: the address of an immutable piece of knowledge.
#[derive(Debug, PartialEq, Eq, Hash, PartialOrd, Ord)]
pub struct Cid(String);

impl View for Cid {
    type V = Seq<char>;

    closed spec fn view(&self) -> Seq<char> {
        self.0@
    }
}

impl Clone for Cid {
    fn clone(&self) -> (r: Self)
        ensures
            r == *self,
    {
        Cid(self.0.clone())
    }
}

impl Cid {
    /// Wraps the given text.
    pub fn new(value: &str) -> (r: Self)
        ensures
            r@ == value@,
    {
        Cid(value.to_string())
    }

    /// Wraps the given owned text.
    pub fn from_string(value: String) -> (r: Self)
        ensures
            r@ == value@,
    {
        Cid(value)
    }

    /// The wrapped text.
    pub fn as_str(&self) -> (r: &str)
        ensures
            r@ == self@,
    {
        self.0.as_str()
    }

    /// An owned copy of the wrapped text.
    pub fn to_text(&self) -> (r: String)
        ensures
            r@ == self@,
    {
        self.0.clone()
    }

    /// Whether both identifiers hold the same text.
    pub fn same(&self, other: &Self) -> (b: bool)
        ensures
            b == (self@ == other@),
    {
        self.0 == other.0
    }
}

/// Hex digest or other hash text.
#[derive(Debug, PartialEq, Eq, Hash, PartialOrd, Ord)]
pub struct Hash(String);

impl View for Hash {
    type V = Seq<char>;

    closed spec fn view(&self) -> Seq<char> {
        self.0@
    }
}

impl Clone for Hash {
    fn clone(&self) -> (r: Self)
        ensures
            r == *self,
    {
        Hash(self.0.clone())
    }
}

impl Hash {
    /// Wraps the given text.
    pub fn new(value: &str) -> (r: Self)
        ensures
            r@ == value@,
    {
        Hash(value.to_string())
    }

    /// Wraps the given owned text.
    pub fn from_string(value: String) -> (r: Self)
        ensures
            r@ == value@,
    {
        Hash(value)
    }

    /// The wrapped text.
    pub fn as_str(&self) -> (r: &str)
        ensures
            r@ == self@,
    {
        self.0.as_str()
    }

    /// An owned copy of the wrapped text.
    pub fn to_text(&self) -> (r: String)
        ensures
            r@ == self@,
    {
        self.0.clone()
    }

    /// Whether both identifiers hold the same text.
    pub fn same(&self, other: &Self) -> (b: bool)
        ensures
            b == (self@ == other@),
    {
        self.0 == other.0
    }
}

/// Signature text attached by a node or a producer.
#[derive(Debug, PartialEq, Eq, Hash, PartialOrd, Ord)]
pub struct Signature(String);

impl View for Signature {
    type V = Seq<char>;

    closed spec fn view(&self) -> Seq<char> {
        self.0@
    }
}

impl Clone for Signature {
    fn clone(&self) -> (r: Self)
        ensures
            r == *self,
    {
        Signature(self.0.clone())
    }
}

impl Signature {
    /// Wraps the given text.
    pub fn new(value: &str) -> (r: Self)
        ensures
            r@ == value@,
    {
        Signature(value.to_string())
    }

    /// Wraps the given owned text.
    pub fn from_string(value: String) -> (r: Self)
        ensures
            r@ == value@,
    {
        Signature(value)
    }

    /// The wrapped text.
    pub fn as_str(&self) -> (r: &str)
        ensures
            r@ == self@,
    {
        self.0.as_str()
    }

    /// An owned copy of the wrapped text.
    pub fn to_text(&self) -> (r: String)
        ensures
            r@ == self@,
    {
        self.0.clone()
    }

    /// Whether both identifiers hold the same text.
    pub fn same(&self, other: &Self) -> (b: bool)
        ensures
            b == (self@ == other@),
    {
        self.0 == other.0
    }
}

/// Identifier of a managed case.
#[derive(Debug, PartialEq, Eq, Hash, PartialOrd, Ord)]
pub struct CaseId(String);

impl View for CaseId {
    type V = Seq<char>;

    closed spec fn view(&self) -> Seq<char> {
        self.0@
    }
}

impl Clone for CaseId {
    fn clone(&self) -> (r: Self)
        ensures
            r == *self,
    {
        CaseId(self.0.clone())
    }
}

impl CaseId {
    /// Wraps the given text.
    pub fn new(value: &str) -> (r: Self)
        ensures
            r@ == value@,
    {
        CaseId(value.to_string())
    }

    /// Wraps the given owned text.
    pub fn from_string(value: String) -> (r: Self)
        ensures
            r@ == value@,
    {
        CaseId(value)
    }

    /// The wrapped text.
    pub fn as_str(&self) -> (r: &str)
        ensures
            r@ == self@,
    {
        self.0.as_str()
    }

    /// An owned copy of the wrapped text.
    pub fn to_text(&self) -> (r: String)
        ensures
            r@ == self@,
    {
        self.0.clone()
    }

    /// Whether both identifiers hold the same text.
    pub fn same(&self, other: &Self) -> (b: bool)
        ensures
            b == (self@ == other@),
    {
        self.0 == other.0
    }
}

/// Identifier of a federation node.
#[derive(Debug, PartialEq, Eq, Hash, PartialOrd, Ord)]
pub struct NodeId(String);

impl View for NodeId {
    type V = Seq<char>;

    closed spec fn view(&self) -> Seq<char> {
        self.0@
    }
}

impl Clone for NodeId {
    fn clone(&self) -> (r: Self)
        ensures
            r == *self,
    {
        NodeId(self.0.clone())
    }
}

impl NodeId {
    /// Wraps the given text.
    pub fn new(value: &str) -> (r: Self)
        ensures
            r@ == value@,
    {
        NodeId(value.to_string())
    }

    /// Wraps the given owned text.
    pub fn from_string(value: String) -> (r: Self)
        ensures
            r@ == value@,
    {
        NodeId(value)
    }

    /// The wrapped text.
    pub fn as_str(&self) -> (r: &str)
        ensures
            r@ == self@,
    {
        self.0.as_str()
    }

    /// An owned copy of the wrapped text.
    pub fn to_text(&self) -> (r: String)
        ensures
            r@ == self@,
    {
        self.0.clone()
    }

    /// Whether both identifiers hold the same text.
    pub fn same(&self, other: &Self) -> (b: bool)
        ensures
            b == (self@ == other@),
    {
        self.0 == other.0
    }
}

/// Name of a mutable pointer to an immutable head.
#[derive(Debug, PartialEq, Eq, Hash, PartialOrd, Ord)]
pub struct PointerAlias(String);

impl View for PointerAlias {
    type V = Seq<char>;

    closed spec fn view(&self) -> Seq<char> {
        self.0@
    }
}

impl Clone for PointerAlias {
    fn clone(&self) -> (r: Self)
        ensures
            r == *self,
    {
        PointerAlias(self.0.clone())
    }
}

impl PointerAlias {
    /// Wraps the given text.
    pub fn new(value: &str) -> (r: Self)
        ensures
            r@ == value@,
    {
        PointerAlias(value.to_string())
    }

    /// Wraps the given owned text.
    pub fn from_string(value: String) -> (r: Self)
        ensures
            r@ == value@,
    {
        PointerAlias(value)
    }

    /// The wrapped text.
    pub fn as_str(&self) -> (r: &str)
        ensures
            r@ == self@,
    {
        self.0.as_str()
    }

    /// An owned copy of the wrapped text.
    pub fn to_text(&self) -> (r: String)
        ensures
            r@ == self@,
    {
        self.0.clone()
    }

    /// Whether both identifiers hold the same text.
    pub fn same(&self, other: &Self) -> (b: bool)
        ensures
            b == (self@ == other@),
    {
        self.0 == other.0
    }
}

/// Content identifier of a receipt.
#[derive(Debug, PartialEq, Eq, Hash, PartialOrd, Ord)]
pub struct ReceiptCid(String);

impl View for ReceiptCid {
    type V = Seq<char>;

    closed spec fn view(&self) -> Seq<char> {
        self.0@
    }
}

impl Clone for ReceiptCid {
    fn clone(&self) -> (r: Self)
        ensures
            r == *self,
    {
        ReceiptCid(self.0.clone())
    }
}

impl ReceiptCid {
    /// Wraps the given text.
    pub fn new(value: &str) -> (r: Self)
        ensures
            r@ == value@,
    {
        ReceiptCid(value.to_string())
    }

    /// Wraps the given owned text.
    pub fn from_string(value: String) -> (r: Self)
        ensures
            r@ == value@,
    {
        ReceiptCid(value)
    }

    /// The wrapped text.
    pub fn as_str(&self) -> (r: &str)
        ensures
            r@ == self@,
    {
        self.0.as_str()
    }

    /// An owned copy of the wrapped text.
    pub fn to_text(&self) -> (r: String)
        ensures
            r@ == self@,
    {
        self.0.clone()
    }

    /// Whether both identifiers hold the same text.
    pub fn same(&self, other: &Self) -> (b: bool)
        ensures
            b == (self@ == other@),
    {
        self.0 == other.0
    }
}

/// Content identifier of a proof pack.
#[derive(Debug, PartialEq, Eq, Hash, PartialOrd, Ord)]
pub struct ProofPackCid(String);

impl View for ProofPackCid {
    type V = Seq<char>;

    closed spec fn view(&self) -> Seq<char> {
        self.0@
    }
}

impl Clone for ProofPackCid {
    fn clone(&self) -> (r: Self)
        ensures
            r == *self,
    {
        ProofPackCid(self.0.clone())
    }
}

impl ProofPackCid {
    /// Wraps the given text.
    pub fn new(value: &str) -> (r: Self)
        ensures
            r@ == value@,
    {
        ProofPackCid(value.to_string())
    }

    /// Wraps the given owned text.
    pub fn from_string(value: String) -> (r: Self)
        ensures
            r@ == value@,
    {
        ProofPackCid(value)
    }

    /// The wrapped text.
    pub fn as_str(&self) -> (r: &str)
        ensures
            r@ == self@,
    {
        self.0.as_str()
    }

    /// An owned copy of the wrapped text.
    pub fn to_text(&self) -> (r: String)
        ensures
            r@ == self@,
    {
        self.0.clone()
    }

    /// Whether both identifiers hold the same text.
    pub fn same(&self, other: &Self) -> (b: bool)
        ensures
            b == (self@ == other@),
    {
        self.0 == other.0
    }
}

/// An amount of budget (gas).
#[derive(Debug, Clone, Copy, PartialEq, Eq, Hash, PartialOrd, Ord, Structural)]
pub struct BudgetAmount(pub u64);

/// A bit-flag reason code attached to a decision.
#[derive(Debug, Clone, Copy, PartialEq, Eq, Hash, PartialOrd, Ord, Structural)]
pub struct ReasonCode(pub u32);

impl ReasonCode {
    /// No reason: the decision carries no complaint.
    pub fn none() -> (r: ReasonCode)
        ensures
            r.0 == 0,
    {
        ReasonCode(0)
    }

    /// Intent or minimum evidence is missing.
    pub fn missing_evidence() -> (r: ReasonCode)
        ensures
            r.0 == 1,
    {
        ReasonCode(1)
    }

    /// Evidence is not anchored.
    pub fn unanchored() -> (r: ReasonCode)
        ensures
            r.0 == 2,
    {
        ReasonCode(2)
    }

    /// A resource budget would be exceeded.
    pub fn resource_violation() -> (r: ReasonCode)
        ensures
            r.0 == 4,
    {
        ReasonCode(4)
    }

    /// A zero-guess domain lacks a deterministic proof.
    pub fn zero_guess() -> (r: ReasonCode)
        ensures
            r.0 == 8,
    {
        ReasonCode(8)
    }

    /// The score lies between the reject and the commit thresholds.
    pub fn silicon_doubt() -> (r: ReasonCode)
        ensures
            r.0 == 16,
    {
        ReasonCode(16)
    }

    /// The score is at or below the reject threshold.
    pub fn silicon_not_ok() -> (r: ReasonCode)
        ensures
            r.0 == 32,
    {
        ReasonCode(32)
    }

}

/// Values that have one canonical text form.
pub trait Canonical {
    fn canonical(&self) -> String;
}

} // verus!
