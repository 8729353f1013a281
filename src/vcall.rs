//! Calls through dispatch tables: the address arithmetic of a slot, the
//! conversion of arguments to what a native callee expects, and the reading
//! of a returned reference. Reading memory and making the call happen
//! outside.
use vstd::prelude::*;
use vstd::utf8::encode_utf8;

verus! {

/// Bytes in a machine word, and so in one dispatch-table entry.
pub const POINTER_WIDTH: usize = 8;

/// The dispatch-table slot of the engine client's "is in game" query.
pub const IS_IN_GAME_SLOT: usize = 35;

/// The address of entry `index` of a dispatch table that starts at `table`,
/// when it lies inside the address space.
pub open spec fn slot_address_of(table: usize, index: usize) -> Option<usize> {
    if table + index * POINTER_WIDTH <= usize::MAX {
        Some((table + index * POINTER_WIDTH) as usize)
    } else {
        None
    }
}

/// The null-terminated form of `bytes`, which exists when they hold no zero.
pub open spec fn c_string_of(bytes: Seq<u8>) -> Option<Seq<u8>> {
    if bytes.contains(0) {
        None
    } else {
        Some(bytes.push(0))
    }
}

/// A null result stands for "not found".
pub open spec fn reference_of(raw: usize) -> Option<usize> {
    if raw == 0 {
        None
    } else {
        Some(raw)
    }
}

pub fn slot_address(table: usize, index: usize) -> (r: Option<usize>)
    ensures
        r == slot_address_of(table, index),
{
    let room = usize::MAX - table;
    if index <= room / POINTER_WIDTH {
        assert(index * POINTER_WIDTH <= room) by (nonlinear_arith)
            requires
                index <= room / POINTER_WIDTH,
                POINTER_WIDTH == 8,
        ;
        Some(table + index * POINTER_WIDTH)
    } else {
        assert(index * POINTER_WIDTH > room) by (nonlinear_arith)
            requires
                index > room / POINTER_WIDTH,
                POINTER_WIDTH == 8,
        ;
        None
    }
}

/// The null-terminated byte string a native callee reads for `text`, or
/// `None` when `text` holds a zero byte, which would cut it short.
pub fn c_string(text: &str) -> (r: Option<Vec<u8>>)
    ensures
        match r {
            Some(v) => c_string_of(encode_utf8(text@)) == Some(v@),
            None => c_string_of(encode_utf8(text@)) is None,
        },
{
    let bytes = text.as_bytes();
    let mut out: Vec<u8> = Vec::new();
    let mut i: usize = 0;
    while i < bytes.len()
        invariant
            bytes@ == encode_utf8(text@),
            i <= bytes@.len(),
            out@ == bytes@.subrange(0, i as int),
            forall|j: int| 0 <= j < i ==> bytes@[j] != 0,
        decreases bytes@.len() - i,
    {
        if bytes[i] == 0 {
            assert(bytes@[i as int] == 0);
            return None;
        }
        out.push(bytes[i]);
        assert(out@ =~= bytes@.subrange(0, i + 1));
        i = i + 1;
    }
    assert(out@ =~= bytes@);
    assert(!bytes@.contains(0));
    out.push(0);
    Some(out)
}

/// Reads a pointer-sized result that stands for a reference.
pub fn returned_reference(raw: usize) -> (r: Option<usize>)
    ensures
        r == reference_of(raw),
{
    if raw == 0 {
        None
    } else {
        Some(raw)
    }
}

/// An argument of a virtual call, as the caller holds it.
pub enum CallArg {
    /// Plain data, passed in a register as it is.
    Value(u64),
    /// A reference or pointer, passed as its address.
    Address(usize),
    /// A string, passed as a pointer to a null-terminated copy.
    Text(String),
}

/// An argument in the form the native callee receives. A `Text` holds the
/// null-terminated bytes whose address is passed; it must outlive the call.
#[derive(Debug, PartialEq, Eq)]
pub enum CallValue {
    Value(u64),
    Address(usize),
    Text(Vec<u8>),
}

/// `v` is what `a` becomes.
pub open spec fn converts_to(a: CallArg, v: CallValue) -> bool {
    match (a, v) {
        (CallArg::Value(x), CallValue::Value(y)) => x == y,
        (CallArg::Address(p), CallValue::Address(q)) => p == q,
        (CallArg::Text(s), CallValue::Text(b)) => c_string_of(encode_utf8(s@)) == Some(b@),
        _ => false,
    }
}

pub open spec fn convertible(a: CallArg) -> bool {
    a matches CallArg::Text(s) ==> c_string_of(encode_utf8(s@)) is Some
}

/// An argument could not be handed to a native callee.
#[derive(Debug, Clone, Copy, PartialEq, Eq, Structural)]
pub enum CallError {
    /// The string argument at this position holds a zero byte.
    InteriorNul { index: usize },
}

/// A virtual call ready to be made: the object, whose address also goes
/// first as the implicit receiver, the slot of its dispatch table, and the
/// converted arguments.
pub struct PreparedCall {
    pub object: usize,
    pub slot: usize,
    pub args: Vec<CallValue>,
}

/// An opaque object of the host, reached through its dispatch table.
pub struct Interface {
    interface_pointer: usize,
}

impl Interface {
    pub closed spec fn pointer(&self) -> usize {
        self.interface_pointer
    }

    pub fn new(interface_pointer: usize) -> (r: Interface)
        ensures
            r.pointer() == interface_pointer,
    {
        Interface { interface_pointer }
    }

    /// The object that a factory returned, or `None` for a null result.
    pub fn from_factory_result(raw: usize) -> (r: Option<Interface>)
        ensures
            match r {
                Some(i) => raw != 0 && i.pointer() == raw,
                None => raw == 0,
            },
    {
        match returned_reference(raw) {
            Some(p) => Some(Interface::new(p)),
            None => None,
        }
    }

    pub fn interface_pointer(&self) -> (r: usize)
        ensures
            r == self.pointer(),
    {
        self.interface_pointer
    }

    /// Prepares a call of slot `slot` on this object with `args`: each string
    /// becomes a null-terminated copy, each other argument stays as it is.
    pub fn prepare_call(&self, slot: usize, args: &Vec<CallArg>) -> (r: Result<
        PreparedCall,
        CallError,
    >)
        ensures
            match r {
                Ok(call) => {
                    &&& call.object == self.pointer()
                    &&& call.slot == slot
                    &&& call.args@.len() == args@.len()
                    &&& forall|i: int|
                        0 <= i < args@.len() ==> converts_to(
                            #[trigger] args@[i],
                            call.args@[i],
                        )
                },
                Err(CallError::InteriorNul { index }) => {
                    &&& index < args@.len()
                    &&& !convertible(args@[index as int])
                    &&& forall|j: int| 0 <= j < index ==> convertible(#[trigger] args@[j])
                },
            },
    {
        let mut out: Vec<CallValue> = Vec::new();
        let mut i: usize = 0;
        while i < args.len()
            invariant
                i <= args@.len(),
                out@.len() == i,
                forall|j: int| 0 <= j < i ==> converts_to(#[trigger] args@[j], out@[j]),
                forall|j: int| 0 <= j < i ==> convertible(#[trigger] args@[j]),
            decreases args@.len() - i,
        {
            let v = match &args[i] {
                CallArg::Value(x) => CallValue::Value(*x),
                CallArg::Address(p) => CallValue::Address(*p),
                CallArg::Text(s) => match c_string(s.as_str()) {
                    Some(b) => CallValue::Text(b),
                    None => {
                        return Err(CallError::InteriorNul { index: i });
                    },
                },
            };
            out.push(v);
            i = i + 1;
        }
        Ok(PreparedCall { object: self.interface_pointer, slot, args: out })
    }
}

} // verus!
