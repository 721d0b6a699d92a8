//! Shader program record with a uniform-location cache and hot-reload
//! bookkeeping. Compiling and linking GLSL, querying a uniform's
//! location and uploading a value are GL calls made by the outer
//! layer; this module owns the decisions around them: which location a
//! name resolves to, when a fresh GL query is needed, whether a failed
//! lookup is remembered, and what a reload resets.

use vstd::prelude::*;

verus! {

/// A value that can be uploaded as a shader uniform. Implementations
/// make the GL upload call for their own type, so they live with the
/// vector and matrix types in the outer layer.
pub trait UniformValue {
    fn set_uniform(&self, location: i32);
}

/// A linked shader program: its GL name, the uniform locations already
/// resolved, and the source paths it can be rebuilt from, if it was
/// built from files.
pub struct Shader {
    id: u32,
    uniform_names: Vec<String>,
    uniform_locations: Vec<i32>,
    vertex_path: Option<String>,
    fragment_path: Option<String>,
}

impl Shader {
    /// The GL program name.
    pub closed spec fn spec_id(self) -> u32 {
        self.id
    }

    pub closed spec fn spec_vertex_path(self) -> Option<String> {
        self.vertex_path
    }

    pub closed spec fn spec_fragment_path(self) -> Option<String> {
        self.fragment_path
    }

    spec fn key_index(self, k: Seq<char>) -> int {
        choose|i: int| 0 <= i < self.uniform_names@.len() && self.uniform_names@[i]@ == k
    }

    /// The uniform locations resolved so far, by uniform name.
    pub closed spec fn uniforms(self) -> Map<Seq<char>, i32> {
        Map::new(
            |k: Seq<char>|
                exists|i: int| 0 <= i < self.uniform_names@.len() && self.uniform_names@[i]@ == k,
            |k: Seq<char>| self.uniform_locations@[self.key_index(k)],
        )
    }

    /// One location per name, and a location for every name.
    /// Constructors establish this and every method keeps it.
    pub closed spec fn wf(self) -> bool {
        &&& self.uniform_names@.len() == self.uniform_locations@.len()
        &&& forall|i: int, j: int|
            #![trigger self.uniform_names@[i], self.uniform_names@[j]]
            0 <= i < j < self.uniform_names@.len() ==> self.uniform_names@[i]@
                != self.uniform_names@[j]@
    }

    /// A program built from the two shader files at the given paths.
    /// The outer layer compiles and links them; the record remembers
    /// the paths so the program can be reloaded.
    pub fn new(id: u32, vertex_path: String, fragment_path: String) -> (r: Shader)
        ensures
            r.wf(),
            r.spec_id() == id,
            r.uniforms() == Map::<Seq<char>, i32>::empty(),
            r.spec_vertex_path() == Some(vertex_path),
            r.spec_fragment_path() == Some(fragment_path),
    {
        let r = Shader {
            id,
            uniform_names: Vec::new(),
            uniform_locations: Vec::new(),
            vertex_path: Some(vertex_path),
            fragment_path: Some(fragment_path),
        };
        proof {
            assert(r.uniforms() =~= Map::<Seq<char>, i32>::empty());
        }
        r
    }

    /// A program built from in-memory GLSL source. There are no files
    /// to re-read, so it cannot be reloaded.
    pub fn from_source(id: u32) -> (r: Shader)
        ensures
            r.wf(),
            r.spec_id() == id,
            r.uniforms() == Map::<Seq<char>, i32>::empty(),
            r.spec_vertex_path() is None,
            r.spec_fragment_path() is None,
    {
        let r = Shader {
            id,
            uniform_names: Vec::new(),
            uniform_locations: Vec::new(),
            vertex_path: None,
            fragment_path: None,
        };
        proof {
            assert(r.uniforms() =~= Map::<Seq<char>, i32>::empty());
        }
        r
    }

    pub fn id(&self) -> (r: u32)
        ensures
            r == self.spec_id(),
    {
        self.id
    }

    /// Whether the program keeps source paths to rebuild from.
    pub fn can_reload(&self) -> (r: bool)
        ensures
            r == (self.spec_vertex_path() is Some && self.spec_fragment_path() is Some),
    {
        self.vertex_path.is_some() && self.fragment_path.is_some()
    }

    /// The path of the vertex shader source, if built from files.
    pub fn vertex_path(&self) -> (r: &Option<String>)
        ensures
            r == &self.spec_vertex_path(),
    {
        &self.vertex_path
    }

    /// The path of the fragment shader source, if built from files.
    pub fn fragment_path(&self) -> (r: &Option<String>)
        ensures
            r == &self.spec_fragment_path(),
    {
        &self.fragment_path
    }

    /// The cached location of uniform `name`, if a GL query for it
    /// succeeded before. `None` asks the caller to query the GL and
    /// report the answer through `note_location`.
    pub fn cached_location(&self, name: &str) -> (r: Option<i32>)
        requires
            self.wf(),
        ensures
            r == if self.uniforms().contains_key(name@) {
                Some(self.uniforms()[name@])
            } else {
                None::<i32>
            },
    {
        let owned: String = name.to_owned();
        let n = self.uniform_names.len();
        let mut i: usize = 0;
        while i < n
            invariant
                i <= n,
                self.wf(),
                n == self.uniform_names@.len(),
                owned@ == name@,
                forall|j: int| 0 <= j < i ==> self.uniform_names@[j]@ != name@,
            decreases n - i,
        {
            if self.uniform_names[i] == owned {
                proof {
                    assert(self.uniform_names@[i as int]@ == name@);
                    assert(self.uniforms().contains_key(name@));
                    assert(self.key_index(name@) == i) by {
                        let k = self.key_index(name@);
                        assert(self.uniform_names@[k]@ == name@);
                    }
                }
                return Some(self.uniform_locations[i]);
            }
            i = i + 1;
        }
        proof {
            assert(!self.uniforms().contains_key(name@));
        }
        None
    }

    /// Records the GL's answer to a location query for `name`. The GL
    /// reports an unknown uniform as location `-1`: that outcome is
    /// handed back as `None` and deliberately not cached, so a uniform
    /// that a reloaded program introduces is looked up afresh. A real
    /// location is cached and returned.
    pub fn note_location(&mut self, name: &str, location: i32) -> (r: Option<i32>)
        requires
            old(self).wf(),
        ensures
            final(self).wf(),
            final(self).spec_id() == old(self).spec_id(),
            final(self).spec_vertex_path() == old(self).spec_vertex_path(),
            final(self).spec_fragment_path() == old(self).spec_fragment_path(),
            location == -1 ==> r is None && final(self).uniforms() == old(self).uniforms(),
            location != -1 ==> r == Some(location) && final(self).uniforms() == old(
                self,
            ).uniforms().insert(name@, location),
    {
        if location == -1 {
            return None;
        }
        let owned: String = name.to_owned();
        let n = self.uniform_names.len();
        let mut i: usize = 0;
        while i < n
            invariant
                i <= n,
                *self == *old(self),
                old(self).wf(),
                location != -1,
                n == self.uniform_names@.len(),
                owned@ == name@,
                forall|j: int| 0 <= j < i ==> self.uniform_names@[j]@ != name@,
            decreases n - i,
        {
            if self.uniform_names[i] == owned {
                self.uniform_locations[i] = location;
                proof {
                    assert(old(self).uniform_names@[i as int]@ == name@);
                    lemma_uniforms_update(*old(self), *self, i as int, name@, location);
                }
                return Some(location);
            }
            i = i + 1;
        }
        self.uniform_names.push(owned);
        self.uniform_locations.push(location);
        proof {
            lemma_uniforms_push(*old(self), *self, name@, location);
        }
        Some(location)
    }

    /// Resets the record to a freshly linked program: the outer layer
    /// recompiled the sources into GL program `new_id`; every cached
    /// location belonged to the old program and is dropped.
    pub fn adopt_program(&mut self, new_id: u32)
        ensures
            final(self).wf(),
            final(self).spec_id() == new_id,
            final(self).uniforms() == Map::<Seq<char>, i32>::empty(),
            final(self).spec_vertex_path() == old(self).spec_vertex_path(),
            final(self).spec_fragment_path() == old(self).spec_fragment_path(),
    {
        self.id = new_id;
        self.uniform_names.clear();
        self.uniform_locations.clear();
        proof {
            assert(self.uniforms() =~= Map::<Seq<char>, i32>::empty());
        }
    }

    /// Uploads `value` to the uniform at `location` of the bound
    /// program, through the value's own GL call.
    pub fn set_uniform<T: UniformValue>(&self, location: i32, value: T) {
        value.set_uniform(location);
    }
}

/// After overwriting the location at an existing index of the cache,
/// the cache maps the same names, with `name` now at `location`.
proof fn lemma_uniforms_update(pre: Shader, post: Shader, i: int, name: Seq<char>, location: i32)
    requires
        pre.wf(),
        0 <= i < pre.uniform_names@.len(),
        pre.uniform_names@[i]@ == name,
        post.uniform_names@ == pre.uniform_names@,
        post.uniform_locations@ == pre.uniform_locations@.update(i, location),
    ensures
        post.wf(),
        post.uniforms() == pre.uniforms().insert(name, location),
{
    assert forall|k: Seq<char>|
        post.uniforms().contains_key(k) <==> pre.uniforms().insert(
            name,
            location,
        ).contains_key(k) by {}
    assert forall|k: Seq<char>| #[trigger]
        post.uniforms().contains_key(k) implies post.uniforms()[k] == pre.uniforms().insert(
        name,
        location,
    )[k] by {
        let j = post.key_index(k);
        assert(0 <= j < post.uniform_names@.len() && post.uniform_names@[j]@ == k);
        if k == name {
            assert(j == i);
            assert(post.uniforms()[k] == location);
        } else {
            assert(j != i);
            assert(pre.key_index(k) == j) by {
                let j2 = pre.key_index(k);
                assert(pre.uniform_names@[j2]@ == k);
            }
            assert(post.uniforms()[k] == pre.uniforms()[k]);
        }
    }
    assert(post.uniforms() =~= pre.uniforms().insert(name, location));
}

/// After appending a name the cache did not hold, the cache maps the
/// old names as before and `name` to `location`.
proof fn lemma_uniforms_push(pre: Shader, post: Shader, name: Seq<char>, location: i32)
    requires
        pre.wf(),
        forall|j: int| 0 <= j < pre.uniform_names@.len() ==> pre.uniform_names@[j]@ != name,
        post.uniform_names@.len() == pre.uniform_names@.len() + 1,
        post.uniform_names@.last()@ == name,
        forall|j: int|
            0 <= j < pre.uniform_names@.len() ==> post.uniform_names@[j] == pre.uniform_names@[j],
        post.uniform_locations@ == pre.uniform_locations@.push(location),
    ensures
        post.wf(),
        post.uniforms() == pre.uniforms().insert(name, location),
{
    let n = pre.uniform_names@.len() as int;
    assert forall|k: Seq<char>| #[trigger]
        post.uniforms().contains_key(k) implies pre.uniforms().insert(
        name,
        location,
    ).contains_key(k) && post.uniforms()[k] == pre.uniforms().insert(name, location)[k] by {
        let j = post.key_index(k);
        assert(0 <= j < post.uniform_names@.len() && post.uniform_names@[j]@ == k);
        if j == n {
            assert(k == name);
            assert(post.uniforms()[k] == location);
        } else {
            assert(pre.uniform_names@[j]@ == k);
            assert(k != name);
            assert(pre.key_index(k) == j) by {
                let j2 = pre.key_index(k);
                assert(pre.uniform_names@[j2]@ == k);
                if j2 != j {
                    assert(post.uniform_names@[j2]@ == k);
                    assert(false);
                }
            }
            assert(post.uniforms()[k] == pre.uniform_locations@[j]);
        }
    }
    assert forall|k: Seq<char>|
        pre.uniforms().insert(name, location).contains_key(k) implies post.uniforms().contains_key(
        k,
    ) by {
        if k == name {
            assert(post.uniform_names@[n]@ == k);
        } else {
            let j2 = pre.key_index(k);
            assert(pre.uniform_names@[j2]@ == k);
            assert(post.uniform_names@[j2]@ == k);
        }
    }
    assert(post.uniforms() =~= pre.uniforms().insert(name, location));
}

} // verus!
