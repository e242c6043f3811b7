//! The service of the real-time core on the virtual board.

use crate::apps::intercom::{lemma_ascii_len, wrapping_sum, ADD, DELAY, ECHO};
use crate::descriptor::{self, FLAG_ONE_WAY};
use crate::message::{Message, Msg};
use crate::rpc::MethodId;
use crate::server::{Reply, Response, RpcError, RpcHandler, RpcServer};
use crate::service::{answer, arguments, called, told};
use vstd::prelude::*;
use vstd::string::*;

verus! {

/// The handler of the service.
pub struct EchoService;

/// The table of methods.
pub open spec fn table() -> Seq<descriptor::Method> {
    descriptor::table_of(
        seq![ECHO, ADD, DELAY],
        seq![0u8, 0u8, FLAG_ONE_WAY],
        seq!["ECHO", "ADD", "DELAY"],
    )
}

impl RpcHandler for EchoService {
    open spec fn handled(
        pre: Self,
        method: MethodId,
        msg: Msg,
        post: Self,
        out: Seq<u8>,
        r: Result<Reply, RpcError>,
    ) -> bool {
        if method == ECHO {
            called::<u32, u32>(msg, |v: u32| v, out, r)
        } else if method == ADD {
            called::<(i32, i32), i32>(msg, |v: (i32, i32)| wrapping_sum(v.0, v.1), out, r)
        } else if method == DELAY {
            told::<u32>(msg, r)
        } else {
            r == Ok::<Reply, RpcError>(Reply::Silent)
        }
    }

    open spec fn described(&self) -> Seq<u8> {
        descriptor::table_bytes(table())
    }

    fn handle(&mut self, method: MethodId, msg: Message, out: &mut Response) -> (r: Result<
        Reply,
        RpcError,
    >) {
        if method == ECHO {
            match arguments::<u32>(&msg) {
                Ok((rid, val)) => answer(out, rid, &val),
                Err(e) => Err(e),
            }
        } else if method == ADD {
            match arguments::<(i32, i32)>(&msg) {
                Ok((rid, (a, b))) => {
                    let sum: i32 = a.wrapping_add(b);
                    answer(out, rid, &sum)
                },
                Err(e) => Err(e),
            }
        } else if method == DELAY {
            match arguments::<u32>(&msg) {
                Ok(_) => Ok(Reply::Silent),
                Err(e) => Err(e),
            }
        } else {
            Ok(Reply::Silent)
        }
    }

    fn descriptor(&self) -> (r: Vec<u8>) {
        let mids: [u64; 3] = [ECHO, ADD, DELAY];
        let flags: [u8; 3] = [0, 0, FLAG_ONE_WAY];
        let names: [&str; 3] = ["ECHO", "ADD", "DELAY"];
        proof {
            reveal_strlit("ECHO");
            reveal_strlit("ADD");
            reveal_strlit("DELAY");
            lemma_ascii_len("ECHO", 4);
            lemma_ascii_len("ADD", 3);
            lemma_ascii_len("DELAY", 5);
            descriptor::lemma_table_len(table(), 8);
            assert(descriptor::table_of(mids@, flags@, names@) =~= table());
        }
        descriptor::encode(mids.as_slice(), flags.as_slice(), names.as_slice())
    }
}

/// The server of the window at `shm_base`.
pub fn server(shm_base: usize) -> (r: RpcServer)
    ensures
        r.spec_shm_addr() == shm_base,
        r.req() == 0,
        r.resp() == 1,
        r.urgent() == 2,
        r.fails() == 0,
{
    RpcServer::new(shm_base)
}

} // verus!
