use crate::engine::Engine;
use crate::gate::CacheGate;
use crate::store::SampleView;
use vstd::prelude::*;

verus! {

/// The status of an answer that carries the metrics.
pub const STATUS_OK: u16 = 200;

/// The status of an answer to a scrape that failed.
pub const STATUS_INTERNAL_SERVER_ERROR: u16 = 500;

/// The answer to one scrape, ready for the transport to send.
#[derive(Debug, PartialEq, Eq)]
pub struct Response {
    /// The HTTP status.
    pub status: u16,
    /// The content type of the body, where there is one to name.
    pub content_type: Option<String>,
    /// The body.
    pub body: Vec<u8>,
}

/// The state behind the scrape handler: the cache gate and the update engine.
///
/// The two are apart so that a caller can guard each with a lock of its own.
pub struct Server {
    pub gate: CacheGate,
    pub engine: Engine,
}

impl Server {
    /// A server whose metrics are valid for `cache_duration` after each refresh.
    /// It holds no series yet, and its first scrape refreshes.
    pub fn new(cache_duration: u64) -> (server: Server)
        ensures
            server.gate == (CacheGate { last: None, window: cache_duration }),
            server.engine.wf(),
            server.engine@ == Seq::<SampleView>::empty(),
    {
        Server { gate: CacheGate::new(cache_duration), engine: Engine::new() }
    }

    /// Begins the update that a scrape at `now` asks for: says whether the data
    /// source has to be fetched, and stamps the cache gate if so. The metrics are left
    /// as they are; whoever is told to fetch hands what came back to the engine.
    pub fn update(&mut self, now: u64) -> (fetch: bool)
        ensures
            fetch == old(self).gate.is_due(now),
            final(self).gate == old(self).gate.polled(now),
            final(self).engine == old(self).engine,
    {
        self.gate.poll(now)
    }

    /// The answer to a scrape that went well: the encoded metrics, under the
    /// content type that their encoder names.
    pub fn serve_internal(content_type: &str, body: Vec<u8>) -> (response: Response)
        ensures
            answers(response, content_type@, body@),
            response.body == body,
    {
        Response { status: STATUS_OK, content_type: Some(content_type.to_owned()), body }
    }

    /// The answer to a scrape, whatever became of it: the answer itself where
    /// there is one, else a server error without a body, which tells the caller
    /// nothing of what went wrong.
    pub fn serve<E>(outcome: Result<Response, E>) -> (response: Response)
        ensures
            match outcome {
                Ok(answer) => response == answer,
                Err(_) => response.status == STATUS_INTERNAL_SERVER_ERROR
                    && response.content_type is None && response.body@.len() == 0,
            },
    {
        match outcome {
            Ok(answer) => answer,
            Err(_) => Response {
                status: STATUS_INTERNAL_SERVER_ERROR,
                content_type: None,
                body: Vec::new(),
            },
        }
    }
}

/// Whether `response` is the answer to a good scrape whose metrics were encoded
/// as `body` under `content_type`.
pub open spec fn answers(response: Response, content_type: Seq<char>, body: Seq<u8>) -> bool {
    &&& response.status == STATUS_OK
    &&& response.content_type is Some
    &&& response.content_type.unwrap()@ == content_type
    &&& response.body@ == body
}

/// Two good scrapes whose metrics were encoded to the same bytes are answered
/// alike, byte for byte.
pub proof fn lemma_same_metrics_same_answer(
    first: Response,
    second: Response,
    content_type: Seq<char>,
    body: Seq<u8>,
)
    requires
        answers(first, content_type, body),
        answers(second, content_type, body),
    ensures
        first.status == second.status,
        first.content_type.unwrap()@ == second.content_type.unwrap()@,
        first.body@ == second.body@,
{
}

} // verus!
