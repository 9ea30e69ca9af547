//! Why a route could not be found, within one area or across areas.
use vstd::prelude::*;
use vstd::string::StringExecFns;

verus! {

/// Why a route inside one area could not be found.
#[derive(Debug, Clone, Copy, PartialEq, Eq, Structural)]
pub enum InnerPathError {
    StartOutsidePolygon,
    EndOutsidePolygon,
    NoPathFound,
    InvalidPolygon,
}

impl InnerPathError {
    /// The sentence shown to a user.
    pub open spec fn message(self) -> Seq<char> {
        match self {
            InnerPathError::StartOutsidePolygon => "Start point is outside the polygon"@,
            InnerPathError::EndOutsidePolygon => "End point is outside the polygon"@,
            InnerPathError::NoPathFound => "No path found between points"@,
            InnerPathError::InvalidPolygon => "Invalid polygon"@,
        }
    }

    /// The variant's name, as a debug print shows it.
    pub open spec fn variant_name(self) -> Seq<char> {
        match self {
            InnerPathError::StartOutsidePolygon => "StartOutsidePolygon"@,
            InnerPathError::EndOutsidePolygon => "EndOutsidePolygon"@,
            InnerPathError::NoPathFound => "NoPathFound"@,
            InnerPathError::InvalidPolygon => "InvalidPolygon"@,
        }
    }

    /// The sentence shown to a user.
    pub fn to_string(&self) -> (s: String)
        ensures
            s@ == self.message(),
    {
        match self {
            InnerPathError::StartOutsidePolygon => "Start point is outside the polygon".to_string(),
            InnerPathError::EndOutsidePolygon => "End point is outside the polygon".to_string(),
            InnerPathError::NoPathFound => "No path found between points".to_string(),
            InnerPathError::InvalidPolygon => "Invalid polygon".to_string(),
        }
    }

    /// The variant's name, as a debug print shows it.
    pub fn debug_name(&self) -> (s: String)
        ensures
            s@ == self.variant_name(),
    {
        match self {
            InnerPathError::StartOutsidePolygon => "StartOutsidePolygon".to_string(),
            InnerPathError::EndOutsidePolygon => "EndOutsidePolygon".to_string(),
            InnerPathError::NoPathFound => "NoPathFound".to_string(),
            InnerPathError::InvalidPolygon => "InvalidPolygon".to_string(),
        }
    }
}

/// Why a route across areas could not be found.
#[derive(Debug, Clone, PartialEq)]
pub enum InterPathError {
    InvalidStartArea,
    InvalidEndArea,
    NoPathFound,
    InvalidConnection,
    /// A leg inside one area failed; the text names the inner error.
    InnerPathError(String),
}

impl InterPathError {
    /// The sentence shown to a user.
    pub open spec fn message(&self) -> Seq<char> {
        match self {
            InterPathError::InvalidStartArea => "Invalid start area"@,
            InterPathError::InvalidEndArea => "Invalid end area"@,
            InterPathError::NoPathFound => "No path found between areas"@,
            InterPathError::InvalidConnection => "Invalid connection"@,
            InterPathError::InnerPathError(msg) => "Inner path error: "@ + msg@,
        }
    }

    /// The error for a failed leg inside one area: it carries the inner error's variant name.
    pub fn from_inner(e: InnerPathError) -> (r: Self)
        ensures
            r matches InterPathError::InnerPathError(msg) && msg@ == e.variant_name(),
    {
        InterPathError::InnerPathError(e.debug_name())
    }

    /// The sentence shown to a user.
    pub fn to_string(&self) -> (s: String)
        ensures
            s@ == self.message(),
    {
        match self {
            InterPathError::InvalidStartArea => "Invalid start area".to_string(),
            InterPathError::InvalidEndArea => "Invalid end area".to_string(),
            InterPathError::NoPathFound => "No path found between areas".to_string(),
            InterPathError::InvalidConnection => "Invalid connection".to_string(),
            InterPathError::InnerPathError(msg) => {
                let mut s = String::from_str("Inner path error: ");
                s.append(msg.as_str());
                s
            },
        }
    }
}

} // verus!
