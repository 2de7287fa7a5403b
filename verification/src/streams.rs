//! The small rules behind a few streams of messages: what a message says, how long
//! its sender waits, which messages pass, and when a timer has ticked enough.

use crate::decimal::{decimal, render};
use crate::text::{contains, occurs};
use vstd::prelude::*;

verus! {

/// How long the sender waits before the message with the given index, in
/// milliseconds: a short while before every other message, a long one before the
/// rest.
pub fn delay_for(index: usize) -> (millis: u64)
    ensures
        millis == if index % 2 == 0 {
            100u64
        } else {
            300u64
        },
{
    if index % 2 == 0 {
        100
    } else {
        300
    }
}

/// A letter wrapped up as a message.
pub open spec fn message_of(letter: Seq<char>) -> Seq<char> {
    "Message: '"@ + letter + "'"@
}

/// Wraps a letter up as a message.
pub fn message_text(letter: &str) -> (text: String)
    ensures
        text@ == message_of(letter@),
{
    let mut text = "Message: '".to_owned();
    text.append(letter);
    text.append("'");
    text
}

/// What user `user_id` says in message number `msg_num`.
pub open spec fn user_message_of(user_id: nat, msg_num: nat) -> Seq<char> {
    "User"@ + decimal(user_id) + ": Message "@ + decimal(msg_num)
}

/// The text of one message of one user.
pub fn user_message(user_id: u32, msg_num: u32) -> (text: String)
    ensures
        text@ == user_message_of(user_id as nat, msg_num as nat),
{
    let mut text = "User".to_owned();
    let id = render(user_id as u64);
    text.append(id.as_str());
    text.append(": Message ");
    let number = render(msg_num as u64);
    text.append(number.as_str());
    assert(text@ =~= user_message_of(user_id as nat, msg_num as nat));
    text
}

/// How long user `user_id` waits between two messages, in milliseconds.
pub fn user_delay(user_id: u32) -> (millis: u64)
    ensures
        millis == 100 * user_id,
{
    100 * (user_id as u64)
}

/// Whether a message is unwanted: it is where the word `spam` stands in it.
pub open spec fn is_spam(message: Seq<char>) -> bool {
    occurs(message, "spam"@)
}

/// A message as it is broadcast.
pub open spec fn broadcast_of(message: Seq<char>) -> Seq<char> {
    "\u{1F4E2} BROADCAST: "@ + message
}

/// What is broadcast for a message: nothing for an unwanted one, and the message
/// behind a announcement mark for every other.
pub fn broadcast(message: &str) -> (sent: Option<String>)
    ensures
        is_spam(message@) ==> sent is None,
        !is_spam(message@) ==> sent is Some && sent->Some_0@ == broadcast_of(message@),
{
    if contains(message, "spam") {
        None
    } else {
        let mut text = "\u{1F4E2} BROADCAST: ".to_owned();
        text.append(message);
        Some(text)
    }
}

/// The number of ticks after which a timer is left alone.
pub const TICKS: u32 = 5;

/// Counts one tick of a timer: the new count, and whether that was the last tick
/// to wait for.
pub fn tick(counter: u32) -> (counted: (u32, bool))
    requires
        counter < u32::MAX,
    ensures
        counted.0 == counter + 1,
        counted.1 == (counter + 1 >= TICKS),
{
    let counter = counter + 1;
    (counter, counter >= TICKS)
}

/// Twice a number.
pub fn double(x: i32) -> (twice: i32)
    requires
        i32::MIN <= 2 * x <= i32::MAX,
    ensures
        twice == 2 * x,
{
    x * 2
}

} // verus!
