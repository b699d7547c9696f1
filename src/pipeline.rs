//! GPU-resident resources, tracked by handle: compiled shader programs,
//! cached by their source pair, and uploaded geometry, keyed by mesh
//! identity. The backend objects themselves (`P`, `B`) are opaque here; the
//! stores decide when the backend has to be asked for a new one and which
//! handles are live.
use vstd::prelude::*;

use crate::error::RenderError;

verus! {

/// Names a compiled program: its position in the program cache.
#[derive(Debug, Clone, Copy, PartialEq, Eq, Structural)]
pub struct ProgramHandle(pub usize);

/// Names uploaded geometry: its slot in the geometry store.
#[derive(Debug, Clone, Copy, PartialEq, Eq, Structural)]
pub struct BufferHandle(pub usize);

/// The position of the source pair `(vertex, fragment)` among `keys`.
pub open spec fn program_index(
    keys: Seq<(Seq<char>, Seq<char>)>,
    vertex: Seq<char>,
    fragment: Seq<char>,
) -> Option<int> {
    if exists|i: int| 0 <= i < keys.len() && keys[i] == (vertex, fragment) {
        Some(choose|i: int| 0 <= i < keys.len() && keys[i] == (vertex, fragment))
    } else {
        None
    }
}

pub open spec fn unique_keys<K>(keys: Seq<K>) -> bool {
    forall|i: int, j: int| 0 <= i < keys.len() && 0 <= j < keys.len() && i != j ==> keys[i] != keys[j]
}

/// The cache's source pairs once `(vertex, fragment)` has been compiled: a
/// pair already present is kept as it is, a new one is appended.
pub open spec fn with_program(
    keys: Seq<(Seq<char>, Seq<char>)>,
    vertex: Seq<char>,
    fragment: Seq<char>,
) -> Seq<(Seq<char>, Seq<char>)> {
    if program_index(keys, vertex, fragment) is Some {
        keys
    } else {
        keys.push((vertex, fragment))
    }
}

proof fn lemma_index_unique(keys: Seq<(Seq<char>, Seq<char>)>, i: int)
    requires
        unique_keys(keys),
        0 <= i < keys.len(),
    ensures
        program_index(keys, keys[i].0, keys[i].1) == Some(i),
{
}

proof fn lemma_with_program(keys: Seq<(Seq<char>, Seq<char>)>, vertex: Seq<char>, fragment: Seq<char>)
    requires
        unique_keys(keys),
    ensures
        unique_keys(with_program(keys, vertex, fragment)),
        program_index(with_program(keys, vertex, fragment), vertex, fragment) is Some,
        program_index(keys, vertex, fragment) is Some ==> with_program(keys, vertex, fragment)
            == keys,
        program_index(keys, vertex, fragment) is None ==> program_index(
            with_program(keys, vertex, fragment),
            vertex,
            fragment,
        ) == Some(keys.len() as int),
{
    let k2 = with_program(keys, vertex, fragment);
    if program_index(keys, vertex, fragment) is None {
        assert(k2[keys.len() as int] == (vertex, fragment));
        assert(unique_keys(k2));
        lemma_index_unique(k2, keys.len() as int);
    }
}

/// Compiling a source pair a second time finds it cached: the cache is left
/// as it was and the same handle comes back, so the backend compiles each
/// distinct pair once.
pub proof fn lemma_compile_once(
    keys: Seq<(Seq<char>, Seq<char>)>,
    vertex: Seq<char>,
    fragment: Seq<char>,
)
    requires
        unique_keys(keys),
    ensures
        program_index(with_program(keys, vertex, fragment), vertex, fragment) == Some(
            match program_index(keys, vertex, fragment) {
                Some(i) => i,
                None => keys.len() as int,
            },
        ),
        with_program(with_program(keys, vertex, fragment), vertex, fragment) == with_program(
            keys,
            vertex,
            fragment,
        ),
{
    lemma_with_program(keys, vertex, fragment);
}

struct ProgramEntry<P> {
    vertex: String,
    fragment: String,
    program: P,
}

/// Compiled programs, each stored once under its exact source pair.
pub struct ProgramCache<P> {
    entries: Vec<ProgramEntry<P>>,
}

impl<P> ProgramCache<P> {
    /// The source pairs compiled so far, in order of compilation.
    pub closed spec fn sources(self) -> Seq<(Seq<char>, Seq<char>)> {
        self.entries@.map_values(|e: ProgramEntry<P>| (e.vertex@, e.fragment@))
    }

    /// The compiled programs, in the same order.
    pub closed spec fn programs(self) -> Seq<P> {
        self.entries@.map_values(|e: ProgramEntry<P>| e.program)
    }

    pub open spec fn wf(self) -> bool {
        &&& unique_keys(self.sources())
        &&& self.programs().len() == self.sources().len()
    }

    pub fn new() -> (r: Self)
        ensures
            r.wf(),
            r.sources() == Seq::<(Seq<char>, Seq<char>)>::empty(),
    {
        ProgramCache { entries: Vec::new() }
    }

    /// Number of programs compiled.
    pub fn len(&self) -> (r: usize)
        ensures
            r == self.sources().len(),
    {
        self.entries.len()
    }

    /// Finds the program compiled from exactly these sources.
    pub fn lookup(&self, vertex: &String, fragment: &String) -> (r: Option<ProgramHandle>)
        requires
            self.wf(),
        ensures
            match r {
                Some(h) => program_index(self.sources(), vertex@, fragment@) == Some(h.0 as int),
                None => program_index(self.sources(), vertex@, fragment@) is None,
            },
    {
        let mut i: usize = 0;
        while i < self.entries.len()
            invariant
                self.wf(),
                0 <= i <= self.entries@.len(),
                forall|j: int| 0 <= j < i ==> self.sources()[j] != (vertex@, fragment@),
            decreases self.entries@.len() - i,
        {
            let e = &self.entries[i];
            if e.vertex == *vertex && e.fragment == *fragment {
                proof {
                    assert(self.sources()[i as int] == (vertex@, fragment@));
                    lemma_index_unique(self.sources(), i as int);
                }
                return Some(ProgramHandle(i));
            }
            assert(self.sources()[i as int] != (vertex@, fragment@));
            i = i + 1;
        }
        None
    }

    /// Records the backend's answer for a source pair.
    ///
    /// A pair already cached keeps its program and handle, whatever
    /// `compiled` holds. Otherwise a program from the backend is stored under
    /// a new handle, and a diagnostic from it is returned as
    /// `ShaderCompile`, leaving the cache as it was.
    pub fn compile(&mut self, vertex: String, fragment: String, compiled: Result<P, String>) -> (r:
        Result<ProgramHandle, RenderError>)
        requires
            old(self).wf(),
            old(self).sources().len() < usize::MAX,
        ensures
            final(self).wf(),
            r is Ok ==> program_index(final(self).sources(), vertex@, fragment@) == Some(
                r->Ok_0.0 as int,
            ),
            match program_index(old(self).sources(), vertex@, fragment@) {
                Some(i) => r == Ok::<ProgramHandle, RenderError>(ProgramHandle(i as usize))
                    && final(self).sources() == old(self).sources()
                    && final(self).programs() == old(self).programs(),
                None => match compiled {
                    Ok(p) => r == Ok::<ProgramHandle, RenderError>(
                        ProgramHandle(old(self).sources().len() as usize),
                    ) && final(self).sources() == with_program(
                        old(self).sources(),
                        vertex@,
                        fragment@,
                    ) && final(self).programs() == old(self).programs().push(p),
                    Err(d) => (match r {
                        Err(RenderError::ShaderCompile(e)) => e == d,
                        _ => false,
                    }) && final(self).sources() == old(self).sources()
                        && final(self).programs() == old(self).programs(),
                },
            },
    {
        match self.lookup(&vertex, &fragment) {
            Some(h) => {
                proof {
                    lemma_with_program(self.sources(), vertex@, fragment@);
                }
                Ok(h)
            },
            None => match compiled {
                Ok(program) => {
                    let n = self.entries.len();
                    proof {
                        lemma_with_program(self.sources(), vertex@, fragment@);
                    }
                    self.entries.push(ProgramEntry { vertex, fragment, program });
                    proof {
                        assert(self.sources() =~= with_program(
                            old(self).sources(),
                            vertex@,
                            fragment@,
                        ));
                        assert(self.programs() =~= old(self).programs().push(program));
                    }
                    Ok(ProgramHandle(n))
                },
                Err(d) => Err(RenderError::ShaderCompile(d)),
            },
        }
    }

    /// The program a handle names; `HandleInvalid` for a handle that this
    /// cache never gave out.
    pub fn get(&self, h: ProgramHandle) -> (r: Result<&P, RenderError>)
        requires
            self.wf(),
        ensures
            match r {
                Ok(p) => h.0 < self.programs().len() && *p == self.programs()[h.0 as int],
                Err(e) => h.0 >= self.programs().len() && e is HandleInvalid,
            },
    {
        if h.0 < self.entries.len() {
            Ok(&self.entries[h.0].program)
        } else {
            Err(RenderError::HandleInvalid)
        }
    }
}

} // verus!
