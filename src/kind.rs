use vstd::prelude::*;

verus! {

/// Static classification of the value an expression yields.
#[derive(Clone, Copy, Debug, PartialEq, Eq, Structural)]
pub enum Kind {
    Void,
    Boolean,
    Number,
    String,
    /// A reference to the function declared under the given symbol.
    FunctionRef(usize),
}

/// Number of stack units a value of kind `k` occupies.
pub open spec fn kind_size(k: Kind) -> nat {
    match k {
        Kind::Void => 0,
        Kind::Boolean => 1,
        Kind::Number => 4,
        Kind::String => 4,
        Kind::FunctionRef(_) => 4,
    }
}

/// Kinds are compatible when they are the same variant, whatever the payload.
pub open spec fn same_shape(a: Kind, b: Kind) -> bool {
    match (a, b) {
        (Kind::Void, Kind::Void) => true,
        (Kind::Boolean, Kind::Boolean) => true,
        (Kind::Number, Kind::Number) => true,
        (Kind::String, Kind::String) => true,
        (Kind::FunctionRef(_), Kind::FunctionRef(_)) => true,
        _ => false,
    }
}

impl Kind {
    pub fn size(&self) -> (r: usize)
        ensures
            r as nat == kind_size(*self),
    {
        match self {
            Kind::Void => 0,
            Kind::Boolean => 1,
            _ => 4,
        }
    }

    pub fn same_shape(&self, other: &Kind) -> (r: bool)
        ensures
            r == same_shape(*self, *other),
    {
        match (self, other) {
            (Kind::Void, Kind::Void) => true,
            (Kind::Boolean, Kind::Boolean) => true,
            (Kind::Number, Kind::Number) => true,
            (Kind::String, Kind::String) => true,
            (Kind::FunctionRef(_), Kind::FunctionRef(_)) => true,
            _ => false,
        }
    }

    /// Name of the kind as written in the generated listing's comments.
    pub fn name(&self) -> (r: &'static str)
        ensures
            r@ == kind_name(*self),
    {
        match self {
            Kind::Void => "Void",
            Kind::Boolean => "Boolean",
            Kind::Number => "Number",
            Kind::String => "String",
            Kind::FunctionRef(_) => "Function",
        }
    }
}

pub open spec fn kind_name(k: Kind) -> Seq<char> {
    match k {
        Kind::Void => "Void"@,
        Kind::Boolean => "Boolean"@,
        Kind::Number => "Number"@,
        Kind::String => "String"@,
        Kind::FunctionRef(_) => "Function"@,
    }
}

} // verus!
