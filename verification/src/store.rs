//! A resource store over the library's own wire types, for a remote mirror:
//! each resource is known by a key and holds a value of one wire type, which
//! the store packs for a send and decodes a received payload into.

use crate::text::owned;
use crate::wire::{
    bool_bytes, f64_list_bytes, not_utf8_prefix, pack_f64_bits, string_bytes, try_unpack_f64_bits, unpack_bool_outcome,
    unpack_f64_list_outcome, unpack_i32_outcome, unpack_i64_outcome, unpack_string_outcome,
    unpack_u32_outcome, unpack_u64_outcome, Wire, WireUnpackError, WireUnpackFault,
};
use std::collections::HashMap;
use vstd::bytes::{spec_u32_to_le_bytes, spec_u64_to_le_bytes};
use vstd::prelude::*;

verus! {

/// One resource value of a wire type. A list of `f64` is held by the IEEE-754
/// bit patterns of its elements.
#[derive(Debug, Clone, PartialEq, Eq)]
pub enum WireValue {
    U64(u64),
    I64(i64),
    U32(u32),
    I32(i32),
    Bool(bool),
    Text(String),
    F64Bits(Vec<u64>),
}

/// The wire type of a resource.
#[derive(Debug, Clone, Copy, PartialEq, Eq, Structural)]
pub enum WireKind {
    U64,
    I64,
    U32,
    I32,
    Bool,
    Text,
    F64Bits,
}

/// The default value of a wire type: zero, `false`, the empty string or the
/// empty list.
pub open spec fn default_of(kind: WireKind) -> WireValueView {
    match kind {
        WireKind::U64 => WireValueView::U64(0),
        WireKind::I64 => WireValueView::I64(0),
        WireKind::U32 => WireValueView::U32(0),
        WireKind::I32 => WireValueView::I32(0),
        WireKind::Bool => WireValueView::Bool(false),
        WireKind::Text => WireValueView::Text(Seq::empty()),
        WireKind::F64Bits => WireValueView::F64Bits(Seq::empty()),
    }
}

/// `store` with the default value of `kind` under `key`, unless a value is
/// there already.
pub open spec fn ensured(store: Map<u64, WireValueView>, key: u64, kind: WireKind) -> Map<u64, WireValueView> {
    if store.dom().contains(key) {
        store
    } else {
        store.insert(key, default_of(kind))
    }
}

/// The bytes the store packs for `key`: the wire bytes of its value, or
/// nothing for an undeclared key.
pub open spec fn packed(store: Map<u64, WireValueView>, key: u64) -> Seq<u8> {
    if store.dom().contains(key) {
        value_bytes(store[key])
    } else {
        Seq::empty()
    }
}

/// `store` after decoding `bytes` into `key`: the decoded value replaces the
/// old one when the bytes decode as the key's type; otherwise nothing changes.
pub open spec fn decoded_into(store: Map<u64, WireValueView>, key: u64, bytes: Seq<u8>) -> Map<
    u64,
    WireValueView,
> {
    if store.dom().contains(key) {
        match decoded_like(store[key], bytes) {
            Some(v) => store.insert(key, v),
            None => store,
        }
    } else {
        store
    }
}

/// Whether `bytes` decode into `key` of `store`.
pub open spec fn decodes_into(store: Map<u64, WireValueView>, key: u64, bytes: Seq<u8>) -> bool {
    store.dom().contains(key) && decoded_like(store[key], bytes) is Some
}

/// Mathematical model of a [`WireValue`].
pub enum WireValueView {
    U64(u64),
    I64(i64),
    U32(u32),
    I32(i32),
    Bool(bool),
    Text(Seq<char>),
    F64Bits(Seq<u64>),
}

impl View for WireValue {
    type V = WireValueView;

    open spec fn view(&self) -> WireValueView {
        match self {
            WireValue::U64(x) => WireValueView::U64(*x),
            WireValue::I64(x) => WireValueView::I64(*x),
            WireValue::U32(x) => WireValueView::U32(*x),
            WireValue::I32(x) => WireValueView::I32(*x),
            WireValue::Bool(x) => WireValueView::Bool(*x),
            WireValue::Text(s) => WireValueView::Text(s@),
            WireValue::F64Bits(w) => WireValueView::F64Bits(w@),
        }
    }
}

/// The type name under which a list of `f64` is decoded.
pub open spec fn f64_list_label() -> Seq<char> {
    "alloc::vec::Vec<f64>"@
}

/// The wire bytes of a value.
pub open spec fn value_bytes(v: WireValueView) -> Seq<u8> {
    match v {
        WireValueView::U64(x) => spec_u64_to_le_bytes(x),
        WireValueView::I64(x) => spec_u64_to_le_bytes(x as u64),
        WireValueView::U32(x) => spec_u32_to_le_bytes(x),
        WireValueView::I32(x) => spec_u32_to_le_bytes(x as u32),
        WireValueView::Bool(b) => bool_bytes(b),
        WireValueView::Text(s) => string_bytes(s),
        WireValueView::F64Bits(w) => f64_list_bytes(w),
    }
}

/// The value `bytes` decode to as a value of the same type as `like`, if
/// they decode.
pub open spec fn decoded_like(like: WireValueView, bytes: Seq<u8>) -> Option<WireValueView> {
    match like {
        WireValueView::U64(_) => match unpack_u64_outcome(bytes) {
            Ok(x) => Some(WireValueView::U64(x)),
            Err(_) => None,
        },
        WireValueView::I64(_) => match unpack_i64_outcome(bytes) {
            Ok(x) => Some(WireValueView::I64(x)),
            Err(_) => None,
        },
        WireValueView::U32(_) => match unpack_u32_outcome(bytes) {
            Ok(x) => Some(WireValueView::U32(x)),
            Err(_) => None,
        },
        WireValueView::I32(_) => match unpack_i32_outcome(bytes) {
            Ok(x) => Some(WireValueView::I32(x)),
            Err(_) => None,
        },
        WireValueView::Bool(_) => match unpack_bool_outcome(bytes) {
            Ok(x) => Some(WireValueView::Bool(x)),
            Err(_) => None,
        },
        WireValueView::Text(_) => match unpack_string_outcome(bytes) {
            Ok(Some(s)) => Some(WireValueView::Text(s)),
            _ => None,
        },
        WireValueView::F64Bits(_) => match unpack_f64_list_outcome(bytes, f64_list_label()) {
            Ok(w) => Some(WireValueView::F64Bits(w)),
            Err(_) => None,
        },
    }
}

/// The detail of decoding into a key the store does not hold.
pub open spec fn undeclared_detail() -> Seq<char> {
    "no resource is declared under this key"@
}

/// Why `bytes` do not decode into `key` of `store`, as the error `e`: the
/// decode error of the key's type for those bytes; for a string whose bytes
/// are not UTF-8, std's error, of which its type, length and leading words
/// are stated; for an undeclared key, the store's own error.
pub open spec fn decode_failure(
    store: Map<u64, WireValueView>,
    key: u64,
    bytes: Seq<u8>,
    e: WireUnpackFault,
) -> bool {
    if !store.dom().contains(key) {
        e == WireUnpackFault {
            type_label: "WireStore"@,
            payload_len: bytes.len() as usize,
            detail: undeclared_detail(),
        }
    } else {
        match store[key] {
            WireValueView::U64(_) => unpack_u64_outcome(bytes) == Err::<u64, WireUnpackFault>(e),
            WireValueView::I64(_) => unpack_i64_outcome(bytes) == Err::<i64, WireUnpackFault>(e),
            WireValueView::U32(_) => unpack_u32_outcome(bytes) == Err::<u32, WireUnpackFault>(e),
            WireValueView::I32(_) => unpack_i32_outcome(bytes) == Err::<i32, WireUnpackFault>(e),
            WireValueView::Bool(_) => unpack_bool_outcome(bytes) == Err::<bool, WireUnpackFault>(e),
            WireValueView::Text(_) => match unpack_string_outcome(bytes) {
                Err(f) => e == f,
                Ok(None) => {
                    &&& e.type_label == "alloc::string::String"@
                    &&& e.payload_len == bytes.len()
                    &&& e.detail.len() >= not_utf8_prefix().len()
                    &&& e.detail.subrange(0, not_utf8_prefix().len() as int) == not_utf8_prefix()
                },
                Ok(Some(_)) => false,
            },
            WireValueView::F64Bits(_) => unpack_f64_list_outcome(bytes, f64_list_label()) == Err::<
                Seq<u64>,
                WireUnpackFault,
            >(e),
        }
    }
}

/// Resources by key, each a value of a wire type.
pub struct WireStore {
    values: HashMap<u64, WireValue>,
}

impl View for WireStore {
    type V = Map<u64, WireValueView>;

    closed spec fn view(&self) -> Map<u64, WireValueView> {
        self.values@.map_values(|v: WireValue| v@)
    }
}

impl WireStore {
    /// An empty store.
    pub fn new() -> (s: Self)
        ensures
            s@ == Map::<u64, WireValueView>::empty(),
    {
        let s = WireStore { values: HashMap::new() };
        assert(s@ =~= Map::<u64, WireValueView>::empty());
        s
    }

    /// Declare the resource under `key` with its initial value, unless one
    /// is declared already.
    pub fn declare(&mut self, key: u64, initial: WireValue)
        ensures
            final(self)@ == if old(self)@.dom().contains(key) {
                old(self)@
            } else {
                old(self)@.insert(key, initial@)
            },
    {
        if !self.values.contains_key(&key) {
            self.values.insert(key, initial);
            assert(self@ =~= old(self)@.insert(key, initial@));
        }
    }

    /// The value under `key`, if declared.
    pub fn get(&self, key: u64) -> (r: Option<&WireValue>)
        ensures
            match r {
                Some(v) => self@.dom().contains(key) && v@ == self@[key],
                None => !self@.dom().contains(key),
            },
    {
        self.values.get(&key)
    }

    /// Put the default value of `kind` under `key`, unless a value is there
    /// already.
    pub fn ensure_resource(&mut self, key: u64, kind: WireKind)
        ensures
            final(self)@ == ensured(old(self)@, key, kind),
    {
        if !self.values.contains_key(&key) {
            let initial = match kind {
                WireKind::U64 => WireValue::U64(0),
                WireKind::I64 => WireValue::I64(0),
                WireKind::U32 => WireValue::U32(0),
                WireKind::I32 => WireValue::I32(0),
                WireKind::Bool => WireValue::Bool(false),
                WireKind::Text => WireValue::Text(owned("")),
                WireKind::F64Bits => WireValue::F64Bits(Vec::new()),
            };
            proof {
                reveal_strlit("");
                assert(""@ =~= Seq::<char>::empty());
                assert(initial@ == default_of(kind));
            }
            self.values.insert(key, initial);
            assert(self@ =~= old(self)@.insert(key, default_of(kind)));
        }
    }

    /// The wire bytes of the resource under `key`; nothing for an undeclared
    /// key.
    pub fn pack_resource(&self, key: u64) -> (r: Vec<u8>)
        ensures
            r@ == packed(self@, key),
    {
        match self.values.get(&key) {
            None => Vec::new(),
            Some(WireValue::U64(x)) => x.pack(),
            Some(WireValue::I64(x)) => x.pack(),
            Some(WireValue::U32(x)) => x.pack(),
            Some(WireValue::I32(x)) => x.pack(),
            Some(WireValue::Bool(x)) => x.pack(),
            Some(WireValue::Text(s)) => s.pack(),
            Some(WireValue::F64Bits(w)) => pack_f64_bits(w.as_slice()),
        }
    }

    /// Decode `bytes` as a value of the type declared under `key` and store
    /// it there; a payload that does not decode, or an undeclared key, leaves
    /// the store as it is.
    pub fn unpack_into_resource(&mut self, key: u64, bytes: &[u8]) -> (r: Result<(), WireUnpackError>)
        ensures
            r is Ok <==> decodes_into(old(self)@, key, bytes@),
            final(self)@ == decoded_into(old(self)@, key, bytes@),
            r matches Err(e) ==> e@.payload_len == bytes@.len() && decode_failure(old(self)@, key, bytes@, e@),
    {
        let n = bytes.len();
        assert(bytes@.len() == n as nat);
        let next = match self.values.get(&key) {
            None => {
                proof {
                    reveal_strlit("no resource is declared under this key");
                }
                return Err(WireUnpackError::new("WireStore", bytes.len(), "no resource is declared under this key"));
            },
            Some(WireValue::U64(_)) => match u64::try_unpack(bytes) {
                Ok(x) => WireValue::U64(x),
                Err(e) => return Err(e),
            },
            Some(WireValue::I64(_)) => match i64::try_unpack(bytes) {
                Ok(x) => WireValue::I64(x),
                Err(e) => return Err(e),
            },
            Some(WireValue::U32(_)) => match u32::try_unpack(bytes) {
                Ok(x) => WireValue::U32(x),
                Err(e) => return Err(e),
            },
            Some(WireValue::I32(_)) => match i32::try_unpack(bytes) {
                Ok(x) => WireValue::I32(x),
                Err(e) => return Err(e),
            },
            Some(WireValue::Bool(_)) => match bool::try_unpack(bytes) {
                Ok(x) => WireValue::Bool(x),
                Err(e) => return Err(e),
            },
            Some(WireValue::Text(_)) => match String::try_unpack(bytes) {
                Ok(s) => WireValue::Text(s),
                Err(e) => return Err(e),
            },
            Some(WireValue::F64Bits(_)) => match try_unpack_f64_bits(bytes, "alloc::vec::Vec<f64>") {
                Ok(w) => WireValue::F64Bits(w),
                Err(e) => return Err(e),
            },
        };
        self.values.insert(key, next);
        assert(self@ =~= old(self)@.insert(key, next@));
        Ok(())
    }
}

} // verus!
