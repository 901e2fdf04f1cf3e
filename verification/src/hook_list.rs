//! Lists that hook cells can hold.
//!
//! A hook cell keeps its value in an encoding that decodes back to the very
//! same value; `HookList` is a list with that property, so state, refs and
//! memoized values can be lists. `from_vec` and `into_vec` convert.
use crate::slot::{HookValue, Slot};
use vstd::prelude::*;

verus! {

/// A list of values, first item first.
#[derive(Debug, PartialEq, Eq)]
pub enum HookList<T> {
    Nil,
    Cons(T, Box<HookList<T>>),
}

/// The items of a list.
pub open spec fn list_items<T>(l: HookList<T>) -> Seq<T>
    decreases l,
{
    match l {
        HookList::Nil => Seq::empty(),
        HookList::Cons(h, t) => seq![h] + list_items(*t),
    }
}

impl<T> View for HookList<T> {
    type V = Seq<T>;

    open spec fn view(&self) -> Seq<T> {
        list_items(*self)
    }
}

/// The cell content of a list: a cell list of the items' contents.
pub open spec fn list_encoded<T: HookValue>(l: HookList<T>) -> Slot
    decreases l,
{
    match l {
        HookList::Nil => Slot::Nil,
        HookList::Cons(h, t) => Slot::Cons(Box::new(h.encoded()), Box::new(list_encoded(*t))),
    }
}

/// The list a cell holds, if it holds a cell list of `T` contents.
pub open spec fn list_decoded<T: HookValue>(s: Slot) -> Option<HookList<T>>
    decreases s,
{
    match s {
        Slot::Nil => Some(HookList::Nil),
        Slot::Cons(h, t) => match (T::decoded(*h), list_decoded::<T>(*t)) {
            (Some(x), Some(rest)) => Some(HookList::Cons(x, Box::new(rest))),
            _ => None,
        },
        _ => None,
    }
}

/// Decoding an encoded list gives the list back.
proof fn lemma_list_round_trip<T: HookValue>(l: HookList<T>)
    ensures
        list_decoded::<T>(list_encoded(l)) == Some(l),
    decreases l,
{
    match l {
        HookList::Nil => {},
        HookList::Cons(h, t) => {
            T::lemma_decode_encode(h);
            lemma_list_round_trip(*t);
        },
    }
}

fn encode_list<T: HookValue>(l: &HookList<T>) -> (s: Slot)
    ensures
        s == list_encoded(*l),
    decreases l,
{
    match l {
        HookList::Nil => Slot::Nil,
        HookList::Cons(h, t) => Slot::Cons(Box::new(h.encode()), Box::new(encode_list(&**t))),
    }
}

fn decode_list<T: HookValue>(s: &Slot) -> (r: Option<HookList<T>>)
    ensures
        r == list_decoded::<T>(*s),
    decreases s,
{
    match s {
        Slot::Nil => Some(HookList::Nil),
        Slot::Cons(h, t) => match T::decode(&**h) {
            Some(x) => match decode_list::<T>(&**t) {
                Some(rest) => Some(HookList::Cons(x, Box::new(rest))),
                None => None,
            },
            None => None,
        },
        _ => None,
    }
}

impl<T: HookValue> HookValue for HookList<T> {
    open spec fn encoded(&self) -> Slot {
        list_encoded(*self)
    }

    open spec fn decoded(s: Slot) -> Option<HookList<T>> {
        list_decoded::<T>(s)
    }

    open spec fn tag() -> u64 {
        T::tag() ^ 0x4c49_5354_0000_0000u64
    }

    proof fn lemma_decode_encode(v: HookList<T>) {
        lemma_list_round_trip(v);
    }

    fn encode(&self) -> (s: Slot) {
        encode_list(self)
    }

    fn decode(s: &Slot) -> (r: Option<HookList<T>>) {
        decode_list::<T>(s)
    }

    fn type_tag() -> (t: u64) {
        T::type_tag() ^ 0x4c49_5354_0000_0000u64
    }
}

impl<T> HookList<T> {
    /// The list of a vector's items, in order.
    pub fn from_vec(v: Vec<T>) -> (l: Self)
        ensures
            l@ == v@,
    {
        let ghost s = v@;
        let mut v = v;
        let mut l = HookList::Nil;
        proof {
            assert(s.skip(s.len() as int) =~= l@);
            assert(s.take(s.len() as int) =~= s);
        }
        while v.len() > 0
            invariant
                v@.len() <= s.len(),
                v@ == s.take(v@.len() as int),
                l@ == s.skip(v@.len() as int),
            decreases v@.len(),
        {
            let ghost m = v@.len() as int;
            proof {
                assert(v@[m - 1] == s[m - 1]);
            }
            let x = v.pop().unwrap();
            l = HookList::Cons(x, Box::new(l));
            proof {
                assert(v@ =~= s.take(m - 1));
                assert(l@ =~= s.skip(m - 1));
            }
        }
        proof {
            assert(s.skip(0) =~= s);
        }
        l
    }

    /// The items as a vector, in order.
    pub fn into_vec(self) -> (v: Vec<T>)
        ensures
            v@ == self@,
    {
        let ghost s = self@;
        let mut out: Vec<T> = Vec::new();
        let mut cur = self;
        proof {
            assert(out@ + cur@ =~= s);
        }
        loop
            invariant
                out@ + cur@ == s,
            ensures
                out@ == s,
            decreases cur@.len(),
        {
            match cur {
                HookList::Nil => {
                    proof {
                        assert(out@ + Seq::<T>::empty() =~= out@);
                    }
                    break;
                },
                HookList::Cons(h, t) => {
                    let ghost before = out@;
                    out.push(h);
                    cur = *t;
                    proof {
                        assert(out@ + cur@ =~= before + (seq![h] + cur@));
                    }
                },
            }
        }
        out
    }
}

} // verus!
