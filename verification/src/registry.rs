//! `wl_registry`: the catalog of globals the compositor advertises. `global`
//! events populate it, `global_remove` events prune it, and `bind` turns an
//! advertised global into a live object of a chosen version.

use vstd::prelude::*;

use crate::bytes::bytes_eq;
use crate::errors::WaylandError;
use crate::kind::WaylandObjectKind;
use crate::objects::EventAction;
use crate::wire::{
    parse_string_bytes, parse_u32, spec_parse_string_bytes, spec_parse_u32, spec_string_bytes,
    string_from_utf8, Id, MessageManager, QueueEntry, WireArgument, WireRequest,
};
use crate::DebugLevel;
use vstd::utf8::encode_utf8;

verus! {

/// One advertised global: its interface name and version.
#[derive(Debug)]
pub struct RegistryEntry {
    pub interface: String,
    pub version: u32,
}

/// The registry object: its id and the advertised globals, keyed by the
/// compositor-chosen numeric name, in arrival order.
#[derive(Debug)]
pub struct Registry {
    pub id: Id,
    pub inner: Vec<(u32, RegistryEntry)>,
}

/// First position whose numeric name is `name`, or a negative value.
pub open spec fn spec_find_name(s: Seq<(u32, RegistryEntry)>, name: u32) -> int
    decreases s.len(),
{
    if s.len() == 0 {
        -1
    } else if s[0].0 == name {
        0
    } else {
        let r = spec_find_name(s.drop_first(), name);
        if r < 0 {
            -1
        } else {
            r + 1
        }
    }
}

/// First position whose interface name has exactly the UTF-8 bytes `nb`, or
/// a negative value.
pub open spec fn spec_find_interface(s: Seq<(u32, RegistryEntry)>, nb: Seq<u8>) -> int
    decreases s.len(),
{
    if s.len() == 0 {
        -1
    } else if spec_string_bytes(s[0].1.interface) == nb {
        0
    } else {
        let r = spec_find_interface(s.drop_first(), nb);
        if r < 0 {
            -1
        } else {
            r + 1
        }
    }
}

/// What a nonnegative find means, and what a negative one excludes.
pub proof fn lemma_find_name(s: Seq<(u32, RegistryEntry)>, name: u32)
    ensures
        spec_find_name(s, name) >= 0 ==> 0 <= spec_find_name(s, name) < s.len() && s[spec_find_name(
            s,
            name,
        )].0 == name && (forall|j: int| 0 <= j < spec_find_name(s, name) ==> s[j].0 != name),
        spec_find_name(s, name) < 0 ==> (forall|j: int| 0 <= j < s.len() ==> s[j].0 != name),
    decreases s.len(),
{
    if s.len() > 0 && s[0].0 != name {
        let t = s.drop_first();
        lemma_find_name(t, name);
        assert(forall|j: int| 1 <= j < s.len() ==> (#[trigger] s[j]) == t[j - 1]);
        let r = spec_find_name(s, name);
        if r >= 0 {
            assert(s[r] == t[r - 1]);
        }
    }
}

/// What a nonnegative interface find means, and what a negative one
/// excludes.
pub proof fn lemma_find_interface(s: Seq<(u32, RegistryEntry)>, nb: Seq<u8>)
    ensures
        spec_find_interface(s, nb) >= 0 ==> 0 <= spec_find_interface(s, nb) < s.len()
            && spec_string_bytes(s[spec_find_interface(s, nb)].1.interface) == nb && (forall|j: int|
            0 <= j < spec_find_interface(s, nb) ==> spec_string_bytes(s[j].1.interface) != nb),
        spec_find_interface(s, nb) < 0 ==> (forall|j: int|
            0 <= j < s.len() ==> spec_string_bytes(s[j].1.interface) != nb),
    decreases s.len(),
{
    if s.len() > 0 && spec_string_bytes(s[0].1.interface) != nb {
        let t = s.drop_first();
        lemma_find_interface(t, nb);
        assert(forall|j: int| 1 <= j < s.len() ==> (#[trigger] s[j]) == t[j - 1]);
        let r = spec_find_interface(s, nb);
        if r >= 0 {
            assert(s[r] == t[r - 1]);
        }
    }
}

impl Registry {
    /// An empty catalog under the given id.
    pub fn new_empty(id: Id) -> (r: Registry)
        ensures
            r.id == id,
            r.inner@.len() == 0,
    {
        Registry { id, inner: Vec::new() }
    }

    /// Position of the entry with the given numeric name, if any.
    fn find_name(&self, name: u32) -> (r: Option<usize>)
        ensures
            match r {
                Some(i) => spec_find_name(self.inner@, name) == i,
                None => spec_find_name(self.inner@, name) < 0,
            },
    {
        let mut i: usize = 0;
        while i < self.inner.len()
            invariant
                i <= self.inner@.len(),
                forall|j: int| 0 <= j < i ==> self.inner@[j].0 != name,
            decreases self.inner@.len() - i,
        {
            if self.inner[i].0 == name {
                proof {
                    lemma_find_name(self.inner@, name);
                }
                return Some(i);
            }
            i = i + 1;
        }
        proof {
            lemma_find_name(self.inner@, name);
        }
        None
    }

    /// Position of the entry whose interface name has exactly the bytes of
    /// `nb`, if any.
    fn find_interface(&self, nb: &[u8]) -> (r: Option<usize>)
        ensures
            match r {
                Some(i) => spec_find_interface(self.inner@, nb@) == i,
                None => spec_find_interface(self.inner@, nb@) < 0,
            },
    {
        let mut i: usize = 0;
        while i < self.inner.len()
            invariant
                i <= self.inner@.len(),
                forall|j: int|
                    0 <= j < i ==> spec_string_bytes(#[trigger] self.inner@[j].1.interface) != nb@,
            decreases self.inner@.len() - i,
        {
            if bytes_eq(self.inner[i].1.interface.as_str().as_bytes(), nb) {
                proof {
                    lemma_find_interface(self.inner@, nb@);
                }
                return Some(i);
            }
            i = i + 1;
        }
        proof {
            lemma_find_interface(self.inner@, nb@);
        }
        None
    }

    /// The advertised version of the interface named `query`, if the
    /// compositor announced it.
    pub fn does_implement(&self, query: &str) -> (r: Option<u32>)
        ensures
            ({
                let i = spec_find_interface(self.inner@, encode_utf8(query@));
                match r {
                    Some(v) => i >= 0 && v == self.inner@[i].1.version,
                    None => i < 0,
                }
            }),
    {
        match self.find_interface(query.as_bytes()) {
            Some(i) => {
                proof {
                    lemma_find_interface(self.inner@, encode_utf8(query@));
                }
                Some(self.inner[i].1.version)
            },
            None => None,
        }
    }

    /// Enqueue the `bind` request that creates object `id` speaking the
    /// given interface at `version`. Refused when the compositor never
    /// advertised that interface, and when it advertised a lower version
    /// than asked for.
    pub fn bind(
        &mut self,
        wlmm: &mut MessageManager,
        id: Id,
        object: WaylandObjectKind,
        version: u32,
    ) -> (r: Result<(), WaylandError>)
        ensures
            *final(self) == *old(self),
            ({
                let i = spec_find_interface(old(self).inner@, encode_utf8(object.spec_name()));
                match r {
                    Ok(_) => i >= 0 && version <= old(self).inner@[i].1.version
                        && final(wlmm).outgoing@ == old(wlmm).outgoing@
                        && final(wlmm).q@.len() == old(wlmm).q@.len() + 1
                        && final(wlmm).q@.subrange(0, old(wlmm).q@.len() as int) == old(wlmm).q@
                        && (final(wlmm).q@.last() matches QueueEntry::Request(req, k)
                        && k == WaylandObjectKind::Registry && req.sender_id == old(self).id
                        && req.opcode == 0 && req.args@.len() == 2 && req.args@[0]
                        == WireArgument::UnInt(old(self).inner@[i].0) && (req.args@[1]
                        matches WireArgument::NewIdSpecific(n, v, nid) && spec_string_bytes(n)
                        == encode_utf8(object.spec_name()) && v == version && nid == id)),
                    Err(e) => (i < 0 || version > old(self).inner@[i].1.version)
                        && (e matches WaylandError::NotInRegistry) && *final(wlmm) == *old(wlmm),
                }
            }),
    {
        let name = object.as_str();
        let idx = match self.find_interface(name.as_bytes()) {
            Some(i) => i,
            None => {
                return Err(WaylandError::NotInRegistry);
            },
        };
        proof {
            lemma_find_interface(self.inner@, encode_utf8(object.spec_name()));
        }
        let global_id = self.inner[idx].0;
        if version > self.inner[idx].1.version {
            return Err(WaylandError::NotInRegistry);
        }
        let mut args: Vec<WireArgument> = Vec::new();
        args.push(WireArgument::UnInt(global_id));
        args.push(WireArgument::NewIdSpecific(String::from_str(name), version, id));
        let req = WireRequest { sender_id: self.id, opcode: 0, args };
        wlmm.queue_request(req, WaylandObjectKind::Registry);
        proof {
            assert(final(wlmm).q@.subrange(0, old(wlmm).q@.len() as int) =~= old(wlmm).q@);
        }
        Ok(())
    }

    /// Everything `handle` promises, as a relation between the state before
    /// (`pre`) and after (`post`) and the result: `global` inserts or
    /// replaces the entry under the advertised numeric name (owed success
    /// for a parseable advertisement with an ASCII interface name);
    /// `global_remove` prunes it; any other opcode is unknown on this
    /// interface.
    pub open spec fn spec_handle(
        pre: Registry,
        opcode: int,
        payload: Seq<u8>,
        post: Registry,
        r: Result<Vec<EventAction>, WaylandError>,
    ) -> bool {
        &&& post.id == pre.id
        &&& opcode == 0 ==> match r {
                Ok(acts) => acts@.len() == 1 && (acts@[0] matches EventAction::DebugMessage(_, _))
                    && (spec_parse_u32(payload, 0) matches Ok(name) && (spec_parse_string_bytes(
                    payload,
                    4,
                ) matches Ok(ib) && (spec_parse_u32(payload, payload.len() - 4) matches Ok(ver)
                    && ({
                    let i = spec_find_name(pre.inner@, name);
                    let e = if i >= 0 {
                        post.inner@[i]
                    } else {
                        post.inner@.last()
                    };
                    &&& e.0 == name
                    &&& spec_string_bytes(e.1.interface) == ib
                    &&& e.1.version == ver
                    &&& (i >= 0 ==> post.inner@.len() == pre.inner@.len() && (forall|
                        j: int,
                    |
                        0 <= j < pre.inner@.len() && j != i ==> post.inner@[j] == pre.inner@[j]))
                    &&& (i < 0 ==> post.inner@.len() == pre.inner@.len() + 1 && post.inner@.subrange(0, pre.inner@.len() as int) == pre.inner@)
                })))),
                Err(_) => post.inner@ == pre.inner@,
            }
        &&& opcode == 0 ==> ((spec_parse_u32(payload, 0) matches Ok(name) && (spec_parse_string_bytes(
                payload,
                4,
            ) matches Ok(ib) && (spec_parse_u32(payload, payload.len() - 4) matches Ok(ver)
                && (forall|k: int| 0 <= k < ib.len() ==> ib[k] < 0x80)))) ==> r is Ok)
        &&& opcode == 1 ==> match r {
                Ok(acts) => acts@.len() == 1 && (acts@[0] matches EventAction::DebugMessage(_, _))
                    && (spec_parse_u32(payload, 0) matches Ok(name) && ({
                    let i = spec_find_name(pre.inner@, name);
                    if i >= 0 {
                        post.inner@ == pre.inner@.remove(i)
                    } else {
                        post.inner@ == pre.inner@
                    }
                })),
                Err(e) => post.inner@ == pre.inner@ && (spec_parse_u32(payload, 0)
                    matches Err(e2) && e2 == e),
            }
        &&& opcode > 1 ==> (r matches Err(e) && e matches WaylandError::InvalidOpCode(op, _) && op
                == opcode && post == pre)
    }

    /// Handle one event for the registry.
    pub fn handle(&mut self, opcode: usize, payload: &[u8]) -> (r: Result<
        Vec<EventAction>,
        WaylandError,
    >)
        ensures
            Registry::spec_handle(*old(self), opcode as int, payload@, *final(self), r),
    {
        match opcode {
            0 => {
                let name = match parse_u32(payload, 0) {
                    Ok(v) => v,
                    Err(e) => {
                        return Err(e);
                    },
                };
                let ib = match parse_string_bytes(payload, 4) {
                    Ok(v) => v,
                    Err(e) => {
                        return Err(e);
                    },
                };
                let ver = match parse_u32(payload, payload.len() - 4) {
                    Ok(v) => v,
                    Err(e) => {
                        return Err(e);
                    },
                };
                let ghost ibv = ib@;
                let interface = match string_from_utf8(ib) {
                    Some(s) => s,
                    None => {
                        return Err(WaylandError::ParseError);
                    },
                };
                let entry = RegistryEntry { interface, version: ver };
                match self.find_name(name) {
                    Some(i) => {
                        proof {
                            lemma_find_name(self.inner@, name);
                        }
                        self.inner.remove(i);
                        self.inner.insert(i, (name, entry));
                    },
                    None => {
                        self.inner.push((name, entry));
                        assert(self.inner@.subrange(0, old(self).inner@.len() as int) =~= old(self).inner@);
                    },
                }
                let mut acts: Vec<EventAction> = Vec::new();
                acts.push(
                    EventAction::DebugMessage(DebugLevel::Trivial, "registry: interface inserted"),
                );
                Ok(acts)
            },
            1 => {
                let name = match parse_u32(payload, 0) {
                    Ok(v) => v,
                    Err(e) => {
                        return Err(e);
                    },
                };
                match self.find_name(name) {
                    Some(i) => {
                        proof {
                            lemma_find_name(self.inner@, name);
                        }
                        self.inner.remove(i);
                    },
                    None => {},
                }
                let mut acts: Vec<EventAction> = Vec::new();
                acts.push(
                    EventAction::DebugMessage(DebugLevel::Trivial, "registry: interface removed"),
                );
                Ok(acts)
            },
            inv => Err(WaylandError::InvalidOpCode(inv, "wl_registry")),
        }
    }
}

} // verus!
