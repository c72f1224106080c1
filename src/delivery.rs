use vstd::prelude::*;

verus! {

/// What the delivery path does after writing one record to the connection.
#[derive(PartialEq, Eq, Structural, Clone, Copy, Debug)]
pub enum DeliveryAction {
    /// The whole record went out: flush and go on.
    Flush,
    /// Only `sent` of `expected` bytes went out: warn, flush and go on with the
    /// next record; the rest of this one is not resent.
    WarnShortWrite { sent: usize, expected: usize },
    /// The write failed outright: the run ends.
    Abort,
}

/// Decides what follows the write of a record of `expected` bytes, where
/// `written` is the number of bytes the connection accepted, or `None` when the
/// write failed.
pub fn delivery_action(expected: usize, written: Option<usize>) -> (r: DeliveryAction)
    ensures
        written is None ==> r == DeliveryAction::Abort,
        written matches Some(n) ==> (n < expected ==> r == (DeliveryAction::WarnShortWrite {
            sent: n,
            expected,
        })),
        written matches Some(n) ==> (n >= expected ==> r == DeliveryAction::Flush),
{
    match written {
        None => DeliveryAction::Abort,
        Some(n) => {
            if n < expected {
                DeliveryAction::WarnShortWrite { sent: n, expected }
            } else {
                DeliveryAction::Flush
            }
        },
    }
}

} // verus!
