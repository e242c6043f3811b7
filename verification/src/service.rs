//! What the handlers of a service have in common: reading arguments and
//! writing results.

use crate::message::{Message, Msg};
use crate::rpc::RequestId;
use crate::server::{response_bytes, Reply, Response, RpcError, RESPONSE_DATA_MAX};
use crate::wire::Wire;
use vstd::prelude::*;

verus! {

/// What may come out of handling a call whose arguments are of type `A` and
/// whose result, of type `R`, is the value of `f`.
pub open spec fn called<A: Wire, R: Wire>(
    msg: Msg,
    f: spec_fn(A::V) -> R::V,
    out: Seq<u8>,
    r: Result<Reply, RpcError>,
) -> bool {
    match msg.as_request::<A>() {
        None => r == Err::<Reply, RpcError>(RpcError::DeserializeFailed),
        Some((rid, mid, a)) => if R::wire(f(a)).len() > RESPONSE_DATA_MAX {
            r == Err::<Reply, RpcError>(RpcError::ResponseTooLarge)
        } else {
            r == Ok::<Reply, RpcError>(Reply::Written) && out == response_bytes(rid, R::wire(f(a)))
        },
    }
}

/// What comes out of handling a call without a result.
pub open spec fn told<A: Wire>(msg: Msg, r: Result<Reply, RpcError>) -> bool {
    r == (match msg.as_request::<A>() {
        None => Err::<Reply, RpcError>(RpcError::DeserializeFailed),
        Some(_) => Ok::<Reply, RpcError>(Reply::Silent),
    })
}

/// What comes out of handling a call that is accepted for later.
pub open spec fn accepted<A: Wire>(msg: Msg, r: Result<Reply, RpcError>) -> bool {
    r == (match msg.as_request::<A>() {
        None => Err::<Reply, RpcError>(RpcError::DeserializeFailed),
        Some(_) => Ok::<Reply, RpcError>(Reply::Deferred),
    })
}

/// The request number and the arguments of a request.
pub fn arguments<A: Wire>(msg: &Message) -> (r: Result<(RequestId, A), RpcError>)
    ensures
        match msg@.as_request::<A>() {
            Some((rid, mid, v)) => r matches Ok((i, a)) && i == rid && a@ == v,
            None => r is Err && r->Err_0 == RpcError::DeserializeFailed,
        },
{
    match msg.as_request::<A>() {
        Some((rid, _, a)) => Ok((rid, a)),
        None => Err(RpcError::DeserializeFailed),
    }
}

/// Answers request `rid` with `result`.
pub fn answer<R: Wire>(out: &mut Response, rid: RequestId, result: &R) -> (r: Result<
    Reply,
    RpcError,
>)
    ensures
        if R::wire(result@).len() > RESPONSE_DATA_MAX {
            r == Err::<Reply, RpcError>(RpcError::ResponseTooLarge)
        } else {
            r == Ok::<Reply, RpcError>(Reply::Written) && final(out)@ == response_bytes(
                rid,
                R::wire(result@),
            )
        },
{
    match out.write(rid, result) {
        Ok(()) => Ok(Reply::Written),
        Err(e) => Err(e),
    }
}

} // verus!
