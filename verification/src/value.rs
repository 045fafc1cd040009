//! Typed values exchanged between the two protocols, and the numeric
//! clamping policy applied to hub-issued commands.

use vstd::prelude::*;

verus! {

/// The kind of a control-protocol value, fixed by the first value observed
/// on an address and immutable afterwards.
#[derive(Clone, Copy, PartialEq, Eq, Structural, Debug)]
pub enum ValueKind {
    Bool,
    Int,
    Float,
}

/// Errors of the translation core. Transport failures are not represented
/// here: they belong to the loops that own the sockets.
#[derive(Clone, Copy, PartialEq, Eq, Structural, Debug)]
pub enum BridgeError {
    /// A control-protocol argument has a type the bridge cannot represent.
    UnsupportedValueKind,
    /// A hub command payload is neither ON/OFF nor a valid number.
    ParseError,
}

/// A control-protocol value the bridge can carry.
///
/// A floating-point sample is held as its decimal text: the numeric
/// operations on machine floats (rendering, parsing, clamping to the unit
/// interval) are performed by the caller that owns the float, and the core
/// treats the text as the value's wire form.
pub enum OscValue {
    Bool(bool),
    Int(i32),
    Float(String),
}

/// Mathematical model of an [`OscValue`].
pub enum ValueModel {
    Bool(bool),
    Int(int),
    Float(Seq<char>),
}

impl View for OscValue {
    type V = ValueModel;

    open spec fn view(&self) -> ValueModel {
        match self {
            OscValue::Bool(b) => ValueModel::Bool(*b),
            OscValue::Int(i) => ValueModel::Int(*i as int),
            OscValue::Float(s) => ValueModel::Float(s@),
        }
    }
}

/// The kind of a modelled value.
pub open spec fn kind_of(v: ValueModel) -> ValueKind {
    match v {
        ValueModel::Bool(_) => ValueKind::Bool,
        ValueModel::Int(_) => ValueKind::Int,
        ValueModel::Float(_) => ValueKind::Float,
    }
}

impl OscValue {
    /// The kind of this value.
    pub fn kind(&self) -> (k: ValueKind)
        ensures
            k == kind_of(self@),
    {
        match self {
            OscValue::Bool(_) => ValueKind::Bool,
            OscValue::Int(_) => ValueKind::Int,
            OscValue::Float(_) => ValueKind::Float,
        }
    }
}

/// A raw control-protocol argument as the transport hands it over: one of
/// the three supported shapes, or anything else.
pub enum OscArg {
    Bool(bool),
    Int(i32),
    Float(String),
    Unsupported,
}

/// Model of a raw argument.
pub enum ArgModel {
    Bool(bool),
    Int(int),
    Float(Seq<char>),
    Unsupported,
}

impl View for OscArg {
    type V = ArgModel;

    open spec fn view(&self) -> ArgModel {
        match self {
            OscArg::Bool(b) => ArgModel::Bool(*b),
            OscArg::Int(i) => ArgModel::Int(*i as int),
            OscArg::Float(s) => ArgModel::Float(s@),
            OscArg::Unsupported => ArgModel::Unsupported,
        }
    }
}

/// What [`classify`] yields on a raw argument: the supported shapes carry
/// over unchanged, everything else is the unsupported-kind error.
pub open spec fn classify_spec(a: ArgModel) -> Result<ValueModel, BridgeError> {
    match a {
        ArgModel::Bool(b) => Ok(ValueModel::Bool(b)),
        ArgModel::Int(i) => Ok(ValueModel::Int(i)),
        ArgModel::Float(s) => Ok(ValueModel::Float(s)),
        ArgModel::Unsupported => Err(BridgeError::UnsupportedValueKind),
    }
}

/// Accepts the supported argument shapes and rejects every other kind with
/// a recoverable error, so that one malformed message never aborts a loop.
pub fn classify(arg: OscArg) -> (r: Result<OscValue, BridgeError>)
    ensures
        match r {
            Ok(v) => classify_spec(arg@) == Ok::<ValueModel, BridgeError>(v@),
            Err(e) => classify_spec(arg@) == Err::<ValueModel, BridgeError>(e),
        },
{
    match arg {
        OscArg::Bool(b) => Ok(OscValue::Bool(b)),
        OscArg::Int(i) => Ok(OscValue::Int(i)),
        OscArg::Float(s) => Ok(OscValue::Float(s)),
        OscArg::Unsupported => Err(BridgeError::UnsupportedValueKind),
    }
}

/// Clamping policy for integer-typed commands: the wire range is `[0, 255]`.
pub open spec fn clamp_int_spec(i: int) -> int {
    if i < 0 {
        0
    } else if i > 255 {
        255
    } else {
        i
    }
}

/// Restricts an integer command value to the wire range `[0, 255]`.
pub fn clamp_int(i: i32) -> (r: i32)
    ensures
        r as int == clamp_int_spec(i as int),
{
    if i < 0 {
        0
    } else if i > 255 {
        255
    } else {
        i
    }
}

/// Clamping an already-in-range integer is a no-op, and clamping twice is
/// the same as clamping once.
pub proof fn lemma_clamp_int_idempotent(i: int)
    ensures
        0 <= i <= 255 ==> clamp_int_spec(i) == i,
        clamp_int_spec(clamp_int_spec(i)) == clamp_int_spec(i),
{
}

} // verus!
