//! The messages that callers read.

use crate::error::{Action, ItemError};
use vstd::prelude::*;
use vstd::string::StringExecFns;

verus! {

/// The digits of base ten, in order.
pub open spec fn digits() -> Seq<char> {
    seq!['0', '1', '2', '3', '4', '5', '6', '7', '8', '9']
}

/// A number in base ten, without leading zeros.
pub open spec fn decimal(n: nat) -> Seq<char>
    decreases n,
{
    if n < 10 {
        seq![digits()[n as int]]
    } else {
        decimal(n / 10).push(digits()[(n % 10) as int])
    }
}

/// What a caller reads when item `id` has been deleted.
pub open spec fn deleted_message(id: u64) -> Seq<char> {
    "Item "@ + decimal(id as nat) + " deleted successfully"@
}

impl ItemError {
    /// What a caller reads of this error.
    pub open spec fn message_text(self) -> Seq<char> {
        match self {
            ItemError::NotFound { id } => "Item "@ + decimal(id as nat) + " not found"@,
            ItemError::Forbidden { action: Action::Update, .. } => {
                "Only the owner can update this item"@
            },
            ItemError::Forbidden { action: Action::Delete, .. } => {
                "Only the owner can delete this item"@
            },
            ItemError::StorageFailure => "failed to increment ID"@,
        }
    }

    /// The message of this error.
    pub fn message(&self) -> (text: String)
        ensures
            text@ == self.message_text(),
    {
        match self {
            ItemError::NotFound { id } => {
                let mut text = String::from_str("Item ");
                text.append(decimal_string(*id).as_str());
                text.append(" not found");
                text
            },
            ItemError::Forbidden { action: Action::Update, .. } => String::from_str(
                "Only the owner can update this item",
            ),
            ItemError::Forbidden { action: Action::Delete, .. } => String::from_str(
                "Only the owner can delete this item",
            ),
            ItemError::StorageFailure => String::from_str("failed to increment ID"),
        }
    }
}

/// One digit as text.
fn digit_str(d: u64) -> (text: &'static str)
    requires
        d < 10,
    ensures
        text@ == seq![digits()[d as int]],
{
    proof {
        reveal_strlit("0");
        reveal_strlit("1");
        reveal_strlit("2");
        reveal_strlit("3");
        reveal_strlit("4");
        reveal_strlit("5");
        reveal_strlit("6");
        reveal_strlit("7");
        reveal_strlit("8");
        reveal_strlit("9");
    }
    let text = if d == 0 {
        "0"
    } else if d == 1 {
        "1"
    } else if d == 2 {
        "2"
    } else if d == 3 {
        "3"
    } else if d == 4 {
        "4"
    } else if d == 5 {
        "5"
    } else if d == 6 {
        "6"
    } else if d == 7 {
        "7"
    } else if d == 8 {
        "8"
    } else {
        "9"
    };
    assert(text@ =~= seq![digits()[d as int]]);
    text
}

/// A number as text in base ten.
pub fn decimal_string(n: u64) -> (text: String)
    ensures
        text@ == decimal(n as nat),
    decreases n,
{
    if n < 10 {
        String::from_str(digit_str(n))
    } else {
        let mut text = decimal_string(n / 10);
        text.append(digit_str(n % 10));
        text
    }
}

/// The confirmation that item `id` has been deleted.
pub fn deletion_message(id: u64) -> (text: String)
    ensures
        text@ == deleted_message(id),
{
    let mut text = String::from_str("Item ");
    text.append(decimal_string(id).as_str());
    text.append(" deleted successfully");
    text
}

} // verus!
