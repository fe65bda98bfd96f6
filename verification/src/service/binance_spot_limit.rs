use vstd::prelude::*;

use crate::database::binance_secret::BinanceSecret;
use crate::database::binance_spot::BinanceSpot;
use crate::database::promise_logging::PromiseLoggingLevel;
use crate::service::logging::{channel_wf, LogChannel, LogEvent};
use crate::service::promise::{SchedulingError, SchedulingResult};

verus! {

/// Admits the owner's spot credential, or classifies its absence as the
/// unrecoverable configuration error, logging it first. When even the log
/// send fails, that failure is reported instead, as a recoverable one.
pub fn require_secret(secret: Option<BinanceSecret>, logger: &mut LogChannel) -> (r:
    SchedulingResult<BinanceSecret>)
    requires
        channel_wf(old(logger)),
    ensures
        channel_wf(final(logger)),
        secret matches Some(v) ==> (r matches Ok(w) && w@ == v@ && *final(logger) == *old(logger)),
        secret is None ==> (r matches Err(e) && (e is Person || e is Pursue)),
        secret is None && !old(logger).closed && old(logger).entries@.len() < old(logger).capacity
            ==> (r matches Err(e) && e matches SchedulingError::Person(m) && m@
            == "binance secret not found"@ && final(logger).entries@.len() == old(logger).entries@.len() + 1 && final(logger).entries@.last()@.level is Error && final(logger).entries@.last()@.message == "binance secret not found"@),
        secret is None && (old(logger).closed || old(logger).entries@.len() >= old(logger).capacity) ==> (r matches Err(e) && e is Pursue && *final(logger) == *old(logger)),
{
    match secret {
        Some(v) => Ok(v),
        None => {
            let message = String::from_str("binance secret not found");
            let event = LogEvent { level: PromiseLoggingLevel::Error, message: message.clone() };
            match logger.send(event) {
                Ok(()) => Err(SchedulingError::Person(message)),
                Err(_) => Err(
                    SchedulingError::Pursue(String::from_str("logging channel unavailable")),
                ),
            }
        },
    }
}

/// Admits the owner's instrument configuration, or classifies its absence
/// as the unrecoverable configuration error, logging it first. When even
/// the log send fails, that failure is reported instead, as a recoverable
/// one.
pub fn require_spot(spot: Option<BinanceSpot>, logger: &mut LogChannel) -> (r: SchedulingResult<
    BinanceSpot,
>)
    requires
        channel_wf(old(logger)),
    ensures
        channel_wf(final(logger)),
        spot matches Some(v) ==> (r matches Ok(w) && w@ == v@ && *final(logger) == *old(logger)),
        spot is None ==> (r matches Err(e) && (e is Person || e is Pursue)),
        spot is None && !old(logger).closed && old(logger).entries@.len() < old(logger).capacity
            ==> (r matches Err(e) && e matches SchedulingError::Person(m) && m@
            == "binance spot not found"@ && final(logger).entries@.len() == old(logger).entries@.len() + 1 && final(logger).entries@.last()@.level is Error && final(logger).entries@.last()@.message == "binance spot not found"@),
        spot is None && (old(logger).closed || old(logger).entries@.len() >= old(logger).capacity)
            ==> (r matches Err(e) && e is Pursue && *final(logger) == *old(logger)),
{
    match spot {
        Some(v) => Ok(v),
        None => {
            let message = String::from_str("binance spot not found");
            let event = LogEvent { level: PromiseLoggingLevel::Error, message: message.clone() };
            match logger.send(event) {
                Ok(()) => Err(SchedulingError::Person(message)),
                Err(_) => Err(
                    SchedulingError::Pursue(String::from_str("logging channel unavailable")),
                ),
            }
        },
    }
}

/// Classifies what the strategy engine's trap loop reported: any failure it
/// surfaces is a recoverable execution error, carried with its message.
pub fn classify_trap(outcome: Result<(), String>) -> (r: SchedulingResult<()>)
    ensures
        outcome is Ok <==> r is Ok,
        outcome matches Err(m) ==> (r matches Err(e) && e matches SchedulingError::Pursue(w) && w@
            == m@),
{
    match outcome {
        Ok(()) => Ok(()),
        Err(m) => Err(SchedulingError::Pursue(m)),
    }
}

/// Whether an invocation outcome stops the promise for good: only the
/// missing-configuration error does.
pub fn is_unrecoverable(outcome: &SchedulingResult<()>) -> (r: bool)
    ensures
        r == (*outcome matches Err(SchedulingError::Person(_))),
{
    match outcome {
        Err(SchedulingError::Person(_)) => true,
        _ => false,
    }
}

/// The log event for a failed price lookup.
pub fn price_error_log(error: &String) -> (r: LogEvent)
    ensures
        r@.level is Error,
        r@.message == "price error "@ + error@,
{
    let mut message = String::from_str("price error ");
    message.append(error.as_str());
    LogEvent { level: PromiseLoggingLevel::Error, message }
}

/// The log event for one buy call: what it returned, or at which price and
/// amount it failed, and why.
pub fn buy_log(price: &String, amount: &String, outcome: &Result<String, String>) -> (r: LogEvent)
    ensures
        *outcome matches Ok(v) ==> (r@.level is Info && r@.message == "buying "@ + v@),
        *outcome matches Err(e) ==> (r@.level is Error && r@.message == "buying price: "@ + price@
            + " amount: "@ + amount@ + " error: "@ + e@),
{
    match outcome {
        Ok(v) => {
            let mut message = String::from_str("buying ");
            message.append(v.as_str());
            LogEvent { level: PromiseLoggingLevel::Info, message }
        },
        Err(e) => {
            let mut message = String::from_str("buying price: ");
            message.append(price.as_str());
            message.append(" amount: ");
            message.append(amount.as_str());
            message.append(" error: ");
            message.append(e.as_str());
            LogEvent { level: PromiseLoggingLevel::Error, message }
        },
    }
}

/// The log event for one sell call: what it returned, or at which price and
/// quantity it failed, and why.
pub fn sell_log(price: &String, quantity: &String, outcome: &Result<String, String>) -> (r:
    LogEvent)
    ensures
        *outcome matches Ok(v) ==> (r@.level is Info && r@.message == "selling "@ + v@),
        *outcome matches Err(e) ==> (r@.level is Error && r@.message == "selling price: "@ + price@
            + " quantity: "@ + quantity@ + " error: "@ + e@),
{
    match outcome {
        Ok(v) => {
            let mut message = String::from_str("selling ");
            message.append(v.as_str());
            LogEvent { level: PromiseLoggingLevel::Info, message }
        },
        Err(e) => {
            let mut message = String::from_str("selling price: ");
            message.append(price.as_str());
            message.append(" quantity: ");
            message.append(quantity.as_str());
            message.append(" error: ");
            message.append(e.as_str());
            LogEvent { level: PromiseLoggingLevel::Error, message }
        },
    }
}

} // verus!
