//! The live runtime: loaded-program state, cooperative teardown and the
//! decoding of streamed records.
//!
//! The loader itself and the attach mechanism are outside services; this
//! module holds the state and the decisions they act on.  A loaded program
//! owns a teardown flag, initially clear.  When a newer compile supersedes
//! it, the supervisor sets the flag exactly once; background readers poll it
//! and stop on their own.

use vstd::prelude::*;

verus! {

/// An error from the runtime loader.
#[derive(Debug)]
pub enum RuntimeError {
    /// Scheduling failed: the program graph contains cycles.
    ProgContainsCycles,
    /// The external loader rejected the program; carries its description.
    LoadError(String),
    /// A required property has not been found.
    ExpectedProperty(&'static str),
    /// Reading a target binary failed; carries the description.
    IoError(String),
    /// No static trace marker of the requested name exists in the target.
    ProbeNotFound(String),
    /// Any other failure, described in prose.
    Other(String),
}

/// Mathematical model of a runtime error.
pub enum SpecRtErr {
    ProgContainsCycles,
    LoadError(Seq<char>),
    ExpectedProperty(Seq<char>),
    IoError(Seq<char>),
    ProbeNotFound(Seq<char>),
    Other(Seq<char>),
}

impl View for RuntimeError {
    type V = SpecRtErr;

    open spec fn view(&self) -> SpecRtErr {
        match self {
            RuntimeError::ProgContainsCycles => SpecRtErr::ProgContainsCycles,
            RuntimeError::LoadError(s) => SpecRtErr::LoadError(s@),
            RuntimeError::ExpectedProperty(s) => SpecRtErr::ExpectedProperty(s@),
            RuntimeError::IoError(s) => SpecRtErr::IoError(s@),
            RuntimeError::ProbeNotFound(s) => SpecRtErr::ProbeNotFound(s@),
            RuntimeError::Other(s) => SpecRtErr::Other(s@),
        }
    }
}

/// The state of one loaded, attached program.
///
/// The attached program handle itself lives with the outside loader; this
/// state carries what the library reasons about: the registry of named event
/// deserializers and the cooperative teardown flag.
#[derive(Debug)]
pub struct LoadedState {
    /// Set exactly once, when this program is superseded or dropped.
    pub torn_down: bool,
    deserializers: Vec<String>,
}

/// Mathematical model of a loaded program's state.
pub struct SpecLoaded {
    pub torn_down: bool,
    pub deserializers: Seq<Seq<char>>,
}

impl View for LoadedState {
    type V = SpecLoaded;

    closed spec fn view(&self) -> SpecLoaded {
        SpecLoaded {
            torn_down: self.torn_down,
            deserializers: self.deserializers@.map_values(|s: String| s@),
        }
    }
}

impl LoadedState {
    /// A freshly loaded program: not torn down, no deserializers.
    pub fn new() -> (r: LoadedState)
        ensures
            r@.torn_down == false,
            r@.deserializers == Seq::<Seq<char>>::empty(),
    {
        LoadedState { torn_down: false, deserializers: Vec::new() }
    }

    /// Registers a named event deserializer.
    pub fn register_deserializer(&mut self, map_name: String)
        ensures
            final(self)@.torn_down == old(self)@.torn_down,
            final(self)@.deserializers == old(self)@.deserializers.push(map_name@),
    {
        self.deserializers.push(map_name);
        proof {
            assert(final(self)@.deserializers =~= old(self)@.deserializers.push(map_name@));
        }
    }

    /// Raises the teardown flag: the sole signal background readers obey.
    pub fn teardown(&mut self)
        ensures
            final(self)@.torn_down == true,
            final(self)@.deserializers == old(self)@.deserializers,
    {
        self.torn_down = true;
    }
}

/// The supervisor of one connection's loaded program: at most one program is
/// active, and it has not been torn down while it is active.
pub struct Session {
    pub active: Option<LoadedState>,
}

impl Session {
    /// The active program, if any, has not been torn down.
    pub open spec fn wf(self) -> bool {
        self.active matches Some(st) ==> st@.torn_down == false
    }

    /// A session with no program loaded.
    pub fn new() -> (r: Session)
        ensures
            r.active is None,
            r.wf(),
    {
        Session { active: None }
    }

    /// Installs a freshly loaded program, handing back the superseded one
    /// with its teardown flag raised.
    ///
    /// The returned state had its flag clear while it was active and has it
    /// set now: the flag is raised exactly once, here.
    pub fn replace(&mut self, fresh: LoadedState) -> (r: Option<LoadedState>)
        requires
            fresh@.torn_down == false,
            old(self).wf(),
        ensures
            final(self).wf(),
            (final(self).active matches Some(st) && st@ == fresh@),
            match old(self).active {
                None => r is None,
                Some(prev) => (r matches Some(p) && prev@.torn_down == false && p@.torn_down
                    == true && p@.deserializers == prev@.deserializers),
            },
    {
        let prev = self.active.take();
        self.active = Some(fresh);
        match prev {
            None => None,
            Some(mut p) => {
                p.teardown();
                Some(p)
            },
        }
    }

    /// Ends the session, raising the teardown flag of the active program.
    pub fn close(&mut self) -> (r: Option<LoadedState>)
        requires
            old(self).wf(),
        ensures
            final(self).wf(),
            final(self).active is None,
            match old(self).active {
                None => r is None,
                Some(prev) => (r matches Some(p) && prev@.torn_down == false && p@.torn_down
                    == true && p@.deserializers == prev@.deserializers),
            },
    {
        let prev = self.active.take();
        match prev {
            None => None,
            Some(mut p) => {
                p.teardown();
                Some(p)
            },
        }
    }
}

/// The little-endian value of an eight-byte record.
pub open spec fn le_u64(b: Seq<u8>) -> int
    recommends
        b.len() == 8,
{
    b[0] + 256 * (b[1] + 256 * (b[2] + 256 * (b[3] + 256 * (b[4] + 256 * (b[5] + 256 * (b[6] + 256
        * b[7]))))))
}

/// Decodes one streamed ring-buffer record: a single eight-byte
/// little-endian integer.  A record of any other width is malformed.
pub fn decode_record(data: &Vec<u8>) -> (r: Option<u64>)
    ensures
        match r {
            Some(v) => data@.len() == 8 && v == le_u64(data@),
            None => data@.len() != 8,
        },
{
    if data.len() != 8 {
        return None;
    }
    let mut v: u64 = data[7] as u64;
    v = v * 256 + data[6] as u64;
    v = v * 256 + data[5] as u64;
    v = v * 256 + data[4] as u64;
    v = v * 256 + data[3] as u64;
    v = v * 256 + data[2] as u64;
    v = v * 256 + data[1] as u64;
    v = v * 256 + data[0] as u64;
    Some(v)
}

} // verus!
