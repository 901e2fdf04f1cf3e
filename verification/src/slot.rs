//! Hook storage cells.
//!
//! Every hook of a fiber owns one `Slot`. A slot holds a value in a small,
//! self-describing encoding; the `HookValue` trait converts typed values to
//! and from that encoding, so one fiber can keep hooks of different types.
use vstd::prelude::*;

verus! {

/// The encoded content of one hook cell.
#[derive(Debug)]
pub enum Slot {
    /// The unit value; also the placeholder of a cell that was never written.
    Unit,
    Bool(bool),
    Char(char),
    I32(i32),
    I64(i64),
    U16(u16),
    U32(u32),
    U64(u64),
    Usize(usize),
    Text(String),
    Opt(Option<Box<Slot>>),
    Pair(Box<Slot>, Box<Slot>),
    /// A value of a user type, marked with that type's tag.
    Tagged(u64, Box<Slot>),
    /// The empty list.
    Nil,
    /// A list cell: head and tail.
    Cons(Box<Slot>, Box<Slot>),
}

impl Slot {
    /// Two cells hold equal content: text is compared by its characters,
    /// every other leaf by value, composites component-wise.
    pub open spec fn same(self, other: Slot) -> bool
        decreases self,
    {
        match (self, other) {
            (Slot::Unit, Slot::Unit) => true,
            (Slot::Bool(a), Slot::Bool(b)) => a == b,
            (Slot::Char(a), Slot::Char(b)) => a == b,
            (Slot::I32(a), Slot::I32(b)) => a == b,
            (Slot::I64(a), Slot::I64(b)) => a == b,
            (Slot::U16(a), Slot::U16(b)) => a == b,
            (Slot::U32(a), Slot::U32(b)) => a == b,
            (Slot::U64(a), Slot::U64(b)) => a == b,
            (Slot::Usize(a), Slot::Usize(b)) => a == b,
            (Slot::Text(a), Slot::Text(b)) => a@ == b@,
            (Slot::Opt(a), Slot::Opt(b)) => match (a, b) {
                (None, None) => true,
                (Some(x), Some(y)) => (*x).same(*y),
                _ => false,
            },
            (Slot::Pair(a1, a2), Slot::Pair(b1, b2)) => (*a1).same(*b1) && (*a2).same(*b2),
            (Slot::Tagged(t, a), Slot::Tagged(u, b)) => t == u && (*a).same(*b),
            (Slot::Nil, Slot::Nil) => true,
            (Slot::Cons(a1, a2), Slot::Cons(b1, b2)) => (*a1).same(*b1) && (*a2).same(*b2),
            _ => false,
        }
    }

    /// Compares two cells by content.
    pub fn same_as(&self, other: &Slot) -> (r: bool)
        ensures
            r == self.same(*other),
        decreases self,
    {
        match (self, other) {
            (Slot::Unit, Slot::Unit) => true,
            (Slot::Bool(a), Slot::Bool(b)) => *a == *b,
            (Slot::Char(a), Slot::Char(b)) => *a == *b,
            (Slot::I32(a), Slot::I32(b)) => *a == *b,
            (Slot::I64(a), Slot::I64(b)) => *a == *b,
            (Slot::U16(a), Slot::U16(b)) => *a == *b,
            (Slot::U32(a), Slot::U32(b)) => *a == *b,
            (Slot::U64(a), Slot::U64(b)) => *a == *b,
            (Slot::Usize(a), Slot::Usize(b)) => *a == *b,
            (Slot::Text(a), Slot::Text(b)) => *a == *b,
            (Slot::Opt(a), Slot::Opt(b)) => match (a, b) {
                (None, None) => true,
                (Some(x), Some(y)) => (**x).same_as(&**y),
                _ => false,
            },
            (Slot::Pair(a1, a2), Slot::Pair(b1, b2)) => (**a1).same_as(&**b1) && (**a2).same_as(
                &**b2,
            ),
            (Slot::Tagged(t, a), Slot::Tagged(u, b)) => *t == *u && (**a).same_as(&**b),
            (Slot::Nil, Slot::Nil) => true,
            (Slot::Cons(a1, a2), Slot::Cons(b1, b2)) => (**a1).same_as(&**b1) && (**a2).same_as(
                &**b2,
            ),
            _ => false,
        }
    }

    /// An exact copy of the cell.
    pub fn duplicate(&self) -> (r: Slot)
        ensures
            r == *self,
        decreases self,
    {
        match self {
            Slot::Unit => Slot::Unit,
            Slot::Bool(b) => Slot::Bool(*b),
            Slot::Char(c) => Slot::Char(*c),
            Slot::I32(v) => Slot::I32(*v),
            Slot::I64(v) => Slot::I64(*v),
            Slot::U16(v) => Slot::U16(*v),
            Slot::U32(v) => Slot::U32(*v),
            Slot::U64(v) => Slot::U64(*v),
            Slot::Usize(v) => Slot::Usize(*v),
            Slot::Text(s) => Slot::Text(s.clone()),
            Slot::Opt(o) => match o {
                None => Slot::Opt(None),
                Some(b) => Slot::Opt(Some(Box::new((**b).duplicate()))),
            },
            Slot::Pair(a, b) => Slot::Pair(Box::new((**a).duplicate()), Box::new((**b).duplicate())),
            Slot::Tagged(t, a) => Slot::Tagged(*t, Box::new((**a).duplicate())),
            Slot::Nil => Slot::Nil,
            Slot::Cons(a, b) => Slot::Cons(Box::new((**a).duplicate()), Box::new((**b).duplicate())),
        }
    }
}


/// Every cell holds the same content as itself.
pub proof fn lemma_same_refl(s: Slot)
    ensures
        s.same(s),
    decreases s,
{
    match s {
        Slot::Opt(o) => match o {
            Some(x) => lemma_same_refl(*x),
            None => {},
        },
        Slot::Pair(a, b) => {
            lemma_same_refl(*a);
            lemma_same_refl(*b);
        },
        Slot::Tagged(_, a) => lemma_same_refl(*a),
        Slot::Cons(a, b) => {
            lemma_same_refl(*a);
            lemma_same_refl(*b);
        },
        _ => {},
    }
}

/// A type whose values can live in a hook cell.
///
/// `encoded` and `decoded` describe the encoding; `lemma_decode_encode`
/// states that decoding an encoded value gives the value back. `tag`
/// identifies the type, so that a cell or a context entry written by one
/// type is not read as another.
pub trait HookValue: Sized {
    spec fn encoded(&self) -> Slot;

    spec fn decoded(s: Slot) -> Option<Self>;

    spec fn tag() -> u64;

    proof fn lemma_decode_encode(v: Self)
        ensures
            Self::decoded(v.encoded()) == Some(v),
    ;

    fn encode(&self) -> (s: Slot)
        ensures
            s == self.encoded(),
    ;

    fn decode(s: &Slot) -> (r: Option<Self>)
        ensures
            r == Self::decoded(*s),
    ;

    fn type_tag() -> (t: u64)
        ensures
            t == Self::tag(),
    ;
}

impl HookValue for () {
    open spec fn encoded(&self) -> Slot {
        Slot::Unit
    }

    open spec fn decoded(s: Slot) -> Option<()> {
        match s {
            Slot::Unit => Some(()),
            _ => None,
        }
    }

    open spec fn tag() -> u64 {
        1
    }

    proof fn lemma_decode_encode(v: ()) {
    }

    fn encode(&self) -> (s: Slot) {
        Slot::Unit
    }

    fn decode(s: &Slot) -> (r: Option<()>) {
        match s {
            Slot::Unit => Some(()),
            _ => None,
        }
    }

    fn type_tag() -> (t: u64) {
        1
    }
}

impl HookValue for String {
    open spec fn encoded(&self) -> Slot {
        Slot::Text(*self)
    }

    open spec fn decoded(s: Slot) -> Option<String> {
        match s {
            Slot::Text(t) => Some(t),
            _ => None,
        }
    }

    open spec fn tag() -> u64 {
        9
    }

    proof fn lemma_decode_encode(v: String) {
    }

    fn encode(&self) -> (s: Slot) {
        Slot::Text(self.clone())
    }

    fn decode(s: &Slot) -> (r: Option<String>) {
        match s {
            Slot::Text(t) => Some(t.clone()),
            _ => None,
        }
    }

    fn type_tag() -> (t: u64) {
        9
    }
}

impl<T: HookValue> HookValue for Option<T> {
    open spec fn encoded(&self) -> Slot {
        match self {
            None => Slot::Opt(None),
            Some(v) => Slot::Opt(Some(Box::new(v.encoded()))),
        }
    }

    open spec fn decoded(s: Slot) -> Option<Option<T>> {
        match s {
            Slot::Opt(None) => Some(None),
            Slot::Opt(Some(b)) => match T::decoded(*b) {
                Some(v) => Some(Some(v)),
                None => None,
            },
            _ => None,
        }
    }

    open spec fn tag() -> u64 {
        T::tag() ^ 0x4f50_5400_0000_0000u64
    }

    proof fn lemma_decode_encode(v: Option<T>) {
        match v {
            None => {},
            Some(x) => {
                T::lemma_decode_encode(x);
            },
        }
    }

    fn encode(&self) -> (s: Slot) {
        match self {
            None => Slot::Opt(None),
            Some(v) => Slot::Opt(Some(Box::new(v.encode()))),
        }
    }

    fn decode(s: &Slot) -> (r: Option<Option<T>>) {
        match s {
            Slot::Opt(None) => Some(None),
            Slot::Opt(Some(b)) => match T::decode(&**b) {
                Some(v) => Some(Some(v)),
                None => None,
            },
            _ => None,
        }
    }

    fn type_tag() -> (t: u64) {
        T::type_tag() ^ 0x4f50_5400_0000_0000u64
    }
}

impl<A: HookValue, B: HookValue> HookValue for (A, B) {
    open spec fn encoded(&self) -> Slot {
        Slot::Pair(Box::new(self.0.encoded()), Box::new(self.1.encoded()))
    }

    open spec fn decoded(s: Slot) -> Option<(A, B)> {
        match s {
            Slot::Pair(a, b) => match (A::decoded(*a), B::decoded(*b)) {
                (Some(x), Some(y)) => Some((x, y)),
                _ => None,
            },
            _ => None,
        }
    }

    open spec fn tag() -> u64 {
        (A::tag() ^ 0x5041_4952_0000_0000u64) ^ (B::tag() << 1u64)
    }

    proof fn lemma_decode_encode(v: (A, B)) {
        A::lemma_decode_encode(v.0);
        B::lemma_decode_encode(v.1);
    }

    fn encode(&self) -> (s: Slot) {
        Slot::Pair(Box::new(self.0.encode()), Box::new(self.1.encode()))
    }

    fn decode(s: &Slot) -> (r: Option<(A, B)>) {
        match s {
            Slot::Pair(a, b) => match (A::decode(&**a), B::decode(&**b)) {
                (Some(x), Some(y)) => Some((x, y)),
                _ => None,
            },
            _ => None,
        }
    }

    fn type_tag() -> (t: u64) {
        (A::type_tag() ^ 0x5041_4952_0000_0000u64) ^ (B::type_tag() << 1u64)
    }
}

impl HookValue for bool {
    open spec fn encoded(&self) -> Slot {
        Slot::Bool(*self)
    }

    open spec fn decoded(s: Slot) -> Option<bool> {
        match s {
            Slot::Bool(v) => Some(v),
            _ => None,
        }
    }

    open spec fn tag() -> u64 {
        2
    }

    proof fn lemma_decode_encode(v: bool) {
    }

    fn encode(&self) -> (s: Slot) {
        Slot::Bool(*self)
    }

    fn decode(s: &Slot) -> (r: Option<bool>) {
        match s {
            Slot::Bool(v) => Some(*v),
            _ => None,
        }
    }

    fn type_tag() -> (t: u64) {
        2
    }
}

impl HookValue for char {
    open spec fn encoded(&self) -> Slot {
        Slot::Char(*self)
    }

    open spec fn decoded(s: Slot) -> Option<char> {
        match s {
            Slot::Char(v) => Some(v),
            _ => None,
        }
    }

    open spec fn tag() -> u64 {
        3
    }

    proof fn lemma_decode_encode(v: char) {
    }

    fn encode(&self) -> (s: Slot) {
        Slot::Char(*self)
    }

    fn decode(s: &Slot) -> (r: Option<char>) {
        match s {
            Slot::Char(v) => Some(*v),
            _ => None,
        }
    }

    fn type_tag() -> (t: u64) {
        3
    }
}

impl HookValue for i32 {
    open spec fn encoded(&self) -> Slot {
        Slot::I32(*self)
    }

    open spec fn decoded(s: Slot) -> Option<i32> {
        match s {
            Slot::I32(v) => Some(v),
            _ => None,
        }
    }

    open spec fn tag() -> u64 {
        4
    }

    proof fn lemma_decode_encode(v: i32) {
    }

    fn encode(&self) -> (s: Slot) {
        Slot::I32(*self)
    }

    fn decode(s: &Slot) -> (r: Option<i32>) {
        match s {
            Slot::I32(v) => Some(*v),
            _ => None,
        }
    }

    fn type_tag() -> (t: u64) {
        4
    }
}

impl HookValue for i64 {
    open spec fn encoded(&self) -> Slot {
        Slot::I64(*self)
    }

    open spec fn decoded(s: Slot) -> Option<i64> {
        match s {
            Slot::I64(v) => Some(v),
            _ => None,
        }
    }

    open spec fn tag() -> u64 {
        5
    }

    proof fn lemma_decode_encode(v: i64) {
    }

    fn encode(&self) -> (s: Slot) {
        Slot::I64(*self)
    }

    fn decode(s: &Slot) -> (r: Option<i64>) {
        match s {
            Slot::I64(v) => Some(*v),
            _ => None,
        }
    }

    fn type_tag() -> (t: u64) {
        5
    }
}

impl HookValue for u16 {
    open spec fn encoded(&self) -> Slot {
        Slot::U16(*self)
    }

    open spec fn decoded(s: Slot) -> Option<u16> {
        match s {
            Slot::U16(v) => Some(v),
            _ => None,
        }
    }

    open spec fn tag() -> u64 {
        10
    }

    proof fn lemma_decode_encode(v: u16) {
    }

    fn encode(&self) -> (s: Slot) {
        Slot::U16(*self)
    }

    fn decode(s: &Slot) -> (r: Option<u16>) {
        match s {
            Slot::U16(v) => Some(*v),
            _ => None,
        }
    }

    fn type_tag() -> (t: u64) {
        10
    }
}

impl HookValue for u32 {
    open spec fn encoded(&self) -> Slot {
        Slot::U32(*self)
    }

    open spec fn decoded(s: Slot) -> Option<u32> {
        match s {
            Slot::U32(v) => Some(v),
            _ => None,
        }
    }

    open spec fn tag() -> u64 {
        6
    }

    proof fn lemma_decode_encode(v: u32) {
    }

    fn encode(&self) -> (s: Slot) {
        Slot::U32(*self)
    }

    fn decode(s: &Slot) -> (r: Option<u32>) {
        match s {
            Slot::U32(v) => Some(*v),
            _ => None,
        }
    }

    fn type_tag() -> (t: u64) {
        6
    }
}

impl HookValue for u64 {
    open spec fn encoded(&self) -> Slot {
        Slot::U64(*self)
    }

    open spec fn decoded(s: Slot) -> Option<u64> {
        match s {
            Slot::U64(v) => Some(v),
            _ => None,
        }
    }

    open spec fn tag() -> u64 {
        7
    }

    proof fn lemma_decode_encode(v: u64) {
    }

    fn encode(&self) -> (s: Slot) {
        Slot::U64(*self)
    }

    fn decode(s: &Slot) -> (r: Option<u64>) {
        match s {
            Slot::U64(v) => Some(*v),
            _ => None,
        }
    }

    fn type_tag() -> (t: u64) {
        7
    }
}

impl HookValue for usize {
    open spec fn encoded(&self) -> Slot {
        Slot::Usize(*self)
    }

    open spec fn decoded(s: Slot) -> Option<usize> {
        match s {
            Slot::Usize(v) => Some(v),
            _ => None,
        }
    }

    open spec fn tag() -> u64 {
        8
    }

    proof fn lemma_decode_encode(v: usize) {
    }

    fn encode(&self) -> (s: Slot) {
        Slot::Usize(*self)
    }

    fn decode(s: &Slot) -> (r: Option<usize>) {
        match s {
            Slot::Usize(v) => Some(*v),
            _ => None,
        }
    }

    fn type_tag() -> (t: u64) {
        8
    }
}

impl HookValue for Slot {
    open spec fn encoded(&self) -> Slot {
        *self
    }

    open spec fn decoded(s: Slot) -> Option<Slot> {
        Some(s)
    }

    open spec fn tag() -> u64 {
        11
    }

    proof fn lemma_decode_encode(v: Slot) {
    }

    fn encode(&self) -> (s: Slot) {
        self.duplicate()
    }

    fn decode(s: &Slot) -> (r: Option<Slot>) {
        Some(s.duplicate())
    }

    fn type_tag() -> (t: u64) {
        11
    }
}

/// Values of `D` hold the same cell content exactly when they are equal,
/// so comparing by content compares the values.
pub open spec fn compared_by_value<D: HookValue>() -> bool {
    forall|a: D, b: D| #[trigger] a.encoded().same(b.encoded()) <==> a == b
}

/// Integers, booleans, characters and the unit value are compared by value.
pub proof fn lemma_plain_values_compared_by_value()
    ensures
        compared_by_value::<()>(),
        compared_by_value::<bool>(),
        compared_by_value::<char>(),
        compared_by_value::<i32>(),
        compared_by_value::<i64>(),
        compared_by_value::<u16>(),
        compared_by_value::<u32>(),
        compared_by_value::<u64>(),
        compared_by_value::<usize>(),
{
}

/// Text is compared by its characters: two strings hold the same cell
/// content exactly when they have the same characters.
pub proof fn lemma_text_compared_by_content(a: String, b: String)
    ensures
        a.encoded().same(b.encoded()) <==> a@ == b@,
{
}

/// Pairs of values compared by value are compared by value.
pub proof fn lemma_pair_compared_by_value<A: HookValue, B: HookValue>()
    requires
        compared_by_value::<A>(),
        compared_by_value::<B>(),
    ensures
        compared_by_value::<(A, B)>(),
{
    assert forall|a: (A, B), b: (A, B)| #[trigger] a.encoded().same(b.encoded()) <==> a == b by {
        assert(a.encoded().same(b.encoded()) == (a.0.encoded().same(b.0.encoded()) && a.1.encoded().same(
            b.1.encoded(),
        )));
    }
}

/// Options of values compared by value are compared by value.
pub proof fn lemma_option_compared_by_value<T: HookValue>()
    requires
        compared_by_value::<T>(),
    ensures
        compared_by_value::<Option<T>>(),
{
    assert forall|a: Option<T>, b: Option<T>| #[trigger] a.encoded().same(b.encoded()) <==> a == b by {
        match (a, b) {
            (Some(x), Some(y)) => {
                assert(a.encoded().same(b.encoded()) == x.encoded().same(y.encoded()));
            },
            _ => {},
        }
    }
}

/// The kind of content a cell holds: one number per variant.
pub open spec fn variant_of(s: Slot) -> int {
    match s {
        Slot::Unit => 0,
        Slot::Bool(_) => 1,
        Slot::Char(_) => 2,
        Slot::I32(_) => 3,
        Slot::I64(_) => 4,
        Slot::U16(_) => 5,
        Slot::U32(_) => 6,
        Slot::U64(_) => 7,
        Slot::Usize(_) => 8,
        Slot::Text(_) => 9,
        Slot::Opt(_) => 10,
        Slot::Pair(_, _) => 11,
        Slot::Tagged(_, _) => 12,
        Slot::Nil => 13,
        Slot::Cons(_, _) => 14,
    }
}

/// Values of `T` are written as cells of kind `n`, and only cells of kind
/// `n` read as a `T`.
pub open spec fn kept_as_variant<T: HookValue>(n: int) -> bool {
    &&& forall|s: Slot| #[trigger] T::decoded(s) is Some ==> variant_of(s) == n
    &&& forall|v: T| #[trigger] variant_of(v.encoded()) == n
}

/// Each plain type is kept as a kind of its own.
pub proof fn lemma_plain_variants()
    ensures
        kept_as_variant::<()>(0),
        kept_as_variant::<bool>(1),
        kept_as_variant::<char>(2),
        kept_as_variant::<i32>(3),
        kept_as_variant::<i64>(4),
        kept_as_variant::<u16>(5),
        kept_as_variant::<u32>(6),
        kept_as_variant::<u64>(7),
        kept_as_variant::<usize>(8),
        kept_as_variant::<String>(9),
{
}

/// Options are kept as option cells and pairs as pair cells, whatever
/// they hold.
pub proof fn lemma_composite_variants<A: HookValue, B: HookValue>()
    ensures
        kept_as_variant::<Option<A>>(10),
        kept_as_variant::<(A, B)>(11),
{
}

/// A cell written with a value of one type reads as nothing at a type kept
/// as another kind of cell: reading a hook at the wrong type gives `None`.
pub proof fn lemma_other_type_reads_none<T: HookValue, U: HookValue>(v: T, n: int, m: int)
    requires
        kept_as_variant::<T>(n),
        kept_as_variant::<U>(m),
        n != m,
    ensures
        U::decoded(v.encoded()) is None,
{
    assert(variant_of(v.encoded()) == n);
    if U::decoded(v.encoded()) is Some {
        assert(variant_of(v.encoded()) == m);
    }
}

} // verus!
