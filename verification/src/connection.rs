//! What one connection remembers between messages: the last header of
//! each chunk stream, and the parameters that the control messages set.
//! None of it is shared between connections.

use crate::header::Header;
use crate::message::{ControleMessage, SetBandwith};
use std::collections::HashMap;
use vstd::prelude::*;
use vstd::std_specs::hash::group_hash_axioms;

verus! {

broadcast use group_hash_axioms;

/// The chunk size of a direction in which no `SetChunkSize` has passed.
pub const DEFAULT_CHUNK_SIZE: u32 = 128;

/// The last header seen on each chunk stream. Its view maps the chunk
/// stream id to that header.
#[derive(Clone, Debug)]
pub struct HeaderCache {
    map: HashMap<u32, Header>,
}

impl View for HeaderCache {
    type V = Map<u32, Header>;

    closed spec fn view(&self) -> Map<u32, Header> {
        self.map@
    }
}

/// The last header of chunk stream `id`, if it has had one.
pub open spec fn last_header(cache: Map<u32, Header>, id: u32) -> Option<Header> {
    if cache.contains_key(id) {
        Some(cache[id])
    } else {
        None
    }
}

/// The cache after `headers` have been seen, first to last.
pub open spec fn remember_all(cache: Map<u32, Header>, headers: Seq<Header>) -> Map<u32, Header>
    decreases headers.len(),
{
    if headers.len() == 0 {
        cache
    } else {
        remember_all(cache, headers.drop_last()).insert(
            headers.last().chunk_stream_id,
            headers.last(),
        )
    }
}

impl HeaderCache {
    pub fn new() -> (cache: HeaderCache)
        ensures
            cache@ == Map::<u32, Header>::empty(),
    {
        HeaderCache { map: HashMap::new() }
    }

    /// The last header of chunk stream `id`.
    pub fn get(&self, id: u32) -> (r: Option<Header>)
        ensures
            r == last_header(self@, id),
    {
        match self.map.get(&id) {
            Some(header) => Some(*header),
            None => None,
        }
    }

    /// Makes `header` the last header of its chunk stream.
    pub fn insert(&mut self, header: Header)
        ensures
            final(self)@ == old(self)@.insert(header.chunk_stream_id, header),
    {
        self.map.insert(header.chunk_stream_id, header);
    }

    /// Takes in the headers of one message, in the order they were read.
    pub fn insert_all(&mut self, headers: &Vec<Header>)
        ensures
            final(self)@ == remember_all(old(self)@, headers@),
    {
        let mut i: usize = 0;
        while i < headers.len()
            invariant
                i <= headers@.len(),
                self@ == remember_all(old(self)@, headers@.subrange(0, i as int)),
            decreases headers@.len() - i,
        {
            self.insert(headers[i]);
            i += 1;
            assert(headers@.subrange(0, i as int).drop_last() =~= headers@.subrange(0, i - 1));
        }
        assert(headers@.subrange(0, i as int) =~= headers@);
    }
}

/// The parameters of a connection that control messages change.
#[derive(Clone, Copy, Debug, PartialEq, Eq, Structural)]
pub struct ProtocolParameters {
    /// The size of the chunks that the peer cuts its messages into.
    pub read_chunk_size: u32,
    /// The size of the chunks that this side cuts its messages into.
    pub write_chunk_size: u32,
    /// The window that the peer announced last, if it announced one.
    pub window_ack_size: Option<u32>,
    /// The bandwidth limit that the peer asked for last, if it asked.
    pub bandwidth_limit: Option<SetBandwith>,
}

impl ProtocolParameters {
    /// The parameters after `message` has arrived: a chunk size applies to
    /// what is read from then on, a window and a bandwidth limit are kept
    /// as announced, an acknowledgement changes nothing.
    pub open spec fn after_receiving(self, message: ControleMessage) -> ProtocolParameters {
        match message {
            ControleMessage::SetChunkSize(s) => ProtocolParameters {
                read_chunk_size: s.size,
                ..self
            },
            ControleMessage::Acknowledgement(_) => self,
            ControleMessage::WindowsAcknowledgementSize(s) => ProtocolParameters {
                window_ack_size: Some(s.size),
                ..self
            },
            ControleMessage::SetBandwith(s) => ProtocolParameters {
                bandwidth_limit: Some(s),
                ..self
            },
        }
    }

    /// The parameters after `message` has been sent: a chunk size applies
    /// to what is written from then on, nothing else changes.
    pub open spec fn after_sending(self, message: ControleMessage) -> ProtocolParameters {
        match message {
            ControleMessage::SetChunkSize(s) => ProtocolParameters {
                write_chunk_size: s.size,
                ..self
            },
            _ => self,
        }
    }

    pub fn new() -> (parameters: ProtocolParameters)
        ensures
            parameters == (ProtocolParameters {
                read_chunk_size: DEFAULT_CHUNK_SIZE,
                write_chunk_size: DEFAULT_CHUNK_SIZE,
                window_ack_size: None,
                bandwidth_limit: None,
            }),
    {
        ProtocolParameters {
            read_chunk_size: DEFAULT_CHUNK_SIZE,
            write_chunk_size: DEFAULT_CHUNK_SIZE,
            window_ack_size: None,
            bandwidth_limit: None,
        }
    }

    /// Takes in a control message that has arrived.
    pub fn receive(&mut self, message: &ControleMessage)
        ensures
            *final(self) == old(self).after_receiving(*message),
    {
        match message {
            ControleMessage::SetChunkSize(s) => {
                self.read_chunk_size = s.size;
            },
            ControleMessage::Acknowledgement(_) => {},
            ControleMessage::WindowsAcknowledgementSize(s) => {
                self.window_ack_size = Some(s.size);
            },
            ControleMessage::SetBandwith(s) => {
                self.bandwidth_limit = Some(*s);
            },
        }
    }

    /// Takes in a control message that has been sent.
    pub fn sent(&mut self, message: &ControleMessage)
        ensures
            *final(self) == old(self).after_sending(*message),
    {
        match message {
            ControleMessage::SetChunkSize(s) => {
                self.write_chunk_size = s.size;
            },
            _ => {},
        }
    }
}

/// The state of one connection.
#[derive(Clone, Debug)]
pub struct Connection {
    pub cache: HeaderCache,
    pub parameters: ProtocolParameters,
}

impl Connection {
    /// A connection on which nothing has passed yet.
    pub fn new() -> (connection: Connection)
        ensures
            connection.cache@ == Map::<u32, Header>::empty(),
            connection.parameters == (ProtocolParameters {
                read_chunk_size: DEFAULT_CHUNK_SIZE,
                write_chunk_size: DEFAULT_CHUNK_SIZE,
                window_ack_size: None,
                bandwidth_limit: None,
            }),
    {
        Connection { cache: HeaderCache::new(), parameters: ProtocolParameters::new() }
    }
}

} // verus!
