//! A receiver contract that keeps what it is sent, or hands back the amount
//! that the message names.
use vstd::prelude::*;
use crate::amount::{decimal_text, format_amount, lemma_parse_format, parse_amount, parsed_amount};
use crate::settlement::{Receiver, ReceiverResponse};

verus! {

/// The message with which a sender asks the receiver to keep everything.
pub open spec fn keep_all_message() -> Seq<char> {
    "take-my-money"@
}

/// A receiver that answers "take-my-money" by keeping the whole transfer,
/// answers a message that is an amount by handing that amount back, and fails
/// on any other message.
pub struct DefiReceiver {
    pub id: String,
}

impl DefiReceiver {
    /// The receiver deployed under the account `id`.
    pub fn new(id: &String) -> (r: DefiReceiver)
        ensures
            r.id@ == id@,
    {
        DefiReceiver { id: id.clone() }
    }

    /// The receiver's answer to a transfer that came with `msg`: the text of
    /// the amount it hands back, or a failure.
    pub fn respond(msg: &String) -> (r: ReceiverResponse)
        ensures
            msg@ == keep_all_message() ==> r is Returned && r->Returned_0@ == decimal_text(0)
                && parsed_amount(r->Returned_0@) == Some(0nat),
            msg@ != keep_all_message() && parsed_amount(msg@) is Some ==> r is Returned
                && r->Returned_0@ == decimal_text(parsed_amount(msg@)->Some_0)
                && parsed_amount(r->Returned_0@) == parsed_amount(msg@),
            msg@ != keep_all_message() && parsed_amount(msg@) is None ==> r is Failed,
    {
        let keep_all = String::from_str("take-my-money");
        if *msg == keep_all {
            proof {
                lemma_parse_format(0);
            }
            return ReceiverResponse::Returned(format_amount(0));
        }
        match parse_amount(msg.as_str()) {
            Some(v) => {
                proof {
                    lemma_parse_format(v as nat);
                }
                ReceiverResponse::Returned(format_amount(v))
            },
            None => ReceiverResponse::Failed,
        }
    }
}

impl Receiver for DefiReceiver {
    fn on_transfer(&mut self, _sender: &String, _amount: u128, msg: &String) -> ReceiverResponse {
        DefiReceiver::respond(msg)
    }
}

} // verus!
