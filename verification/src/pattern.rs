//! Pattern selection: from the construction pattern to the shape of the
//! signatures of the setters and of the build operation.

use vstd::prelude::*;
use crate::directive::Pattern;

verus! {

/// How an operation takes the builder.
#[derive(Clone, Copy, Debug, PartialEq, Eq, Structural)]
pub enum Receiver {
    /// By value: the builder is gone after the call.
    Consumed,
    /// By an exclusive borrow.
    Exclusive,
    /// By a read-only borrow.
    Shared,
}

/// What a setter hands back.
#[derive(Clone, Copy, Debug, PartialEq, Eq, Structural)]
pub enum Handback {
    /// The builder it consumed, by value.
    ByValue,
    /// The exclusive borrow it was given.
    SameBorrow,
    /// A fresh copy of the whole builder, which holds the new value; the
    /// builder it was given stays as it was.
    FreshCopy,
}

/// The shape of the signatures of a builder's operations.
#[derive(Clone, Copy, Debug, PartialEq, Eq, Structural)]
pub struct SignatureShape {
    /// How a setter takes the builder.
    pub setter_receiver: Receiver,
    /// What a setter hands back.
    pub setter_result: Handback,
    /// How the build operation takes the builder.
    pub build_receiver: Receiver,
    /// Whether the build operation copies the stored values into the
    /// record, because the builder keeps them.
    pub build_copies: bool,
}

/// The shape that a pattern fixes.
pub open spec fn shape_of(p: Pattern) -> SignatureShape {
    match p {
        Pattern::Owned => SignatureShape {
            setter_receiver: Receiver::Consumed,
            setter_result: Handback::ByValue,
            build_receiver: Receiver::Consumed,
            build_copies: false,
        },
        Pattern::Mutable => SignatureShape {
            setter_receiver: Receiver::Exclusive,
            setter_result: Handback::SameBorrow,
            build_receiver: Receiver::Shared,
            build_copies: true,
        },
        Pattern::Immutable => SignatureShape {
            setter_receiver: Receiver::Shared,
            setter_result: Handback::FreshCopy,
            build_receiver: Receiver::Shared,
            build_copies: true,
        },
    }
}

/// Selects the shape of the signatures for a pattern.
///
/// Under `Owned` every operation consumes the builder. Under `Mutable` a
/// setter borrows it exclusively and hands the same borrow back. Under
/// `Immutable` a setter borrows it read-only and hands back a fresh copy.
/// Under both the build operation borrows it read-only and copies the
/// stored values.
pub fn select(p: Pattern) -> (r: SignatureShape)
    ensures
        r == shape_of(p),
{
    match p {
        Pattern::Owned => SignatureShape {
            setter_receiver: Receiver::Consumed,
            setter_result: Handback::ByValue,
            build_receiver: Receiver::Consumed,
            build_copies: false,
        },
        Pattern::Mutable => SignatureShape {
            setter_receiver: Receiver::Exclusive,
            setter_result: Handback::SameBorrow,
            build_receiver: Receiver::Shared,
            build_copies: true,
        },
        Pattern::Immutable => SignatureShape {
            setter_receiver: Receiver::Shared,
            setter_result: Handback::FreshCopy,
            build_receiver: Receiver::Shared,
            build_copies: true,
        },
    }
}

} // verus!
