//! Classification of decoded records by direction, and the queue of events
//! that frames of a session yield.
use crate::parser::{PacketTypes, ParseError, Parser, parse_spec};
use crate::text::{push_char, split_range, split_spec};
use std::collections::VecDeque;
use vstd::hash_set::StringHashSet;
use vstd::prelude::*;

verus! {

/// A decoded record, tagged with the side that sent it.
#[derive(Debug, PartialEq)]
pub enum PacketSource {
    Server(PacketTypes),
    Client(PacketTypes),
}

/// The characters that the bytes `b` stand for, one each (ISO 8859-1).
pub open spec fn latin1(b: Seq<u8>) -> Seq<char> {
    Seq::new(b.len(), |i: int| b[i] as char)
}

/// The line `l` gives no record.
pub open spec fn line_fails(l: Seq<char>) -> bool {
    parse_spec(l, Err(ParseError::NotAPacket)) || parse_spec(l, Err(ParseError::Malformed))
}

/// Whether `e` is the record `p` tagged as coming from a server (or a client).
pub open spec fn tagged(e: PacketSource, from_server: bool, l: Seq<char>) -> bool {
    match e {
        PacketSource::Server(p) => from_server && parse_spec(l, Ok(p)),
        PacketSource::Client(p) => !from_server && parse_spec(l, Ok(p)),
    }
}

/// Whether `evs` are the events of the lines `lines`, in order: one per line
/// that gives a record, tagged with the sending side.
pub open spec fn line_events(lines: Seq<Seq<char>>, from_server: bool, evs: Seq<PacketSource>) -> bool
    decreases lines.len(),
{
    if lines.len() == 0 {
        evs.len() == 0
    } else if line_fails(lines.last()) {
        line_events(lines.drop_last(), from_server, evs)
    } else {
        evs.len() > 0 && tagged(evs.last(), from_server, lines.last()) && line_events(
            lines.drop_last(),
            from_server,
            evs.drop_last(),
        )
    }
}

/// Whether `evs` are the events of one frame from `src` to `dst`: nothing
/// where neither address is a server's; otherwise the records of its
/// newline-separated lines, tagged `Server` where the sender is a server and
/// `Client` where the receiver is.
pub open spec fn frame_events(
    servers: Set<Seq<char>>,
    src: Seq<char>,
    dst: Seq<char>,
    payload: Seq<u8>,
    evs: Seq<PacketSource>,
) -> bool {
    if servers.contains(src) || servers.contains(dst) {
        line_events(split_spec(latin1(payload), '\n'), servers.contains(src), evs)
    } else {
        evs.len() == 0
    }
}

proof fn lemma_ok_is_not_failure(l: Seq<char>, p: PacketTypes)
    requires
        parse_spec(l, Ok(p)),
    ensures
        !line_fails(l),
{
}

/// The server addresses of a session and the events not yet handed out.
pub struct Sniffer {
    search_ips: StringHashSet,
    packet_queue: VecDeque<PacketSource>,
}

impl Sniffer {
    /// The addresses known to be servers.
    pub closed spec fn servers(&self) -> Set<Seq<char>> {
        self.search_ips@
    }

    /// The events not yet handed out, oldest first.
    pub closed spec fn queued(&self) -> Seq<PacketSource> {
        self.packet_queue@
    }

    pub fn new() -> (r: Self)
        ensures
            r.servers() == Set::<Seq<char>>::empty(),
            r.queued() == Seq::<PacketSource>::empty(),
    {
        Sniffer { search_ips: StringHashSet::new(), packet_queue: VecDeque::new() }
    }

    /// Adds a server address.
    pub fn add_server_ip(&mut self, ip: String)
        ensures
            final(self).servers() == old(self).servers().insert(ip@),
            final(self).queued() == old(self).queued(),
    {
        self.search_ips.insert(ip);
    }

    pub fn is_server_ip(&self, ip: &str) -> (r: bool)
        ensures
            r == self.servers().contains(ip@),
    {
        self.search_ips.contains(ip)
    }

    pub fn has_pending(&self) -> (r: bool)
        ensures
            r == (self.queued().len() > 0),
    {
        self.packet_queue.len() > 0
    }

    /// Hands out the oldest event, if any.
    pub fn pop_event(&mut self) -> (r: Option<PacketSource>)
        ensures
            final(self).servers() == old(self).servers(),
            old(self).queued().len() == 0 ==> r is None && final(self).queued() == old(self).queued(),
            old(self).queued().len() > 0 ==> r == Some(old(self).queued()[0]) && final(self).queued()
                == old(self).queued().drop_first(),
    {
        self.packet_queue.pop_front()
    }

    /// Decodes one frame from `src_ip` to `dst_ip` and queues its events.
    pub fn accept_frame(&mut self, src_ip: &str, dst_ip: &str, payload: &[u8])
        ensures
            final(self).servers() == old(self).servers(),
            exists|evs: Seq<PacketSource>|
                frame_events(old(self).servers(), src_ip@, dst_ip@, payload@, evs)
                    && final(self).queued() == old(self).queued() + evs,
    {
        let from_server = self.search_ips.contains(src_ip);
        if !from_server && !self.search_ips.contains(dst_ip) {
            assert(frame_events(self.servers(), src_ip@, dst_ip@, payload@, Seq::empty()));
            assert(self.queued() =~= self.queued() + Seq::<PacketSource>::empty());
            return;
        }
        let n = payload.len();
        let mut text = String::new();
        let mut chars: Vec<char> = Vec::new();
        let mut i: usize = 0;
        while i < n
            invariant
                n == payload@.len(),
                i <= n,
                text@ == chars@,
                chars@ == latin1(payload@).subrange(0, i as int),
            decreases n - i,
        {
            let c = payload[i] as char;
            push_char(&mut text, c);
            chars.push(c);
            i = i + 1;
        }
        assert(chars@ =~= latin1(payload@));
        let lines = split_range(text.as_str(), &chars, 0, n, '\n');
        assert(chars@.subrange(0, n as int) =~= chars@);
        let ghost all = lines.deep_view();
        let ghost start = self.queued();
        let mut k: usize = 0;
        assert(all.subrange(0, 0) =~= Seq::<Seq<char>>::empty());
        assert(start + Seq::<PacketSource>::empty() =~= start);
        while k < lines.len()
            invariant
                all == lines.deep_view(),
                k <= all.len(),
                self.servers() == old(self).servers(),
                start == old(self).queued(),
                self.queued().len() >= start.len(),
                self.queued().subrange(0, start.len() as int) == start,
                line_events(all.subrange(0, k as int), from_server, self.queued().skip(start.len() as int)),
            decreases all.len() - k,
        {
            let ghost before = self.queued();
            assert(all.subrange(0, k + 1).drop_last() =~= all.subrange(0, k as int));
            assert(all.subrange(0, k + 1).last() == all[k as int]);
            match Parser::parse_line(lines[k]) {
                Ok(p) => {
                    proof {
                        lemma_ok_is_not_failure(all[k as int], p);
                    }
                    let e = if from_server {
                        PacketSource::Server(p)
                    } else {
                        PacketSource::Client(p)
                    };
                    self.packet_queue.push_back(e);
                    assert(self.queued().skip(start.len() as int).drop_last() =~= before.skip(
                        start.len() as int,
                    ));
                    assert(self.queued().subrange(0, start.len() as int) =~= start);
                },
                Err(_) => {},
            }
            k = k + 1;
        }
        assert(all.subrange(0, all.len() as int) =~= all);
        assert(old(self).queued() + self.queued().skip(start.len() as int) =~= self.queued());
    }
}

} // verus!
