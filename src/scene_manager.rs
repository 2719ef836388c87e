//! Scenes: named groups of entities ready to be loaded into the registry.
use crate::graphics_object::{EntityModel, Generic2DGraphicsObject};
use crate::keyed::{
    keyed_map, keys_unique, lemma_keyed_absent, lemma_keyed_map, lemma_keyed_push, lemma_keyed_remove,
    lemma_keyed_update,
};
use vstd::prelude::*;

verus! {

/// The entities of one scene, in the order they were added.
pub struct Scene {
    objects: Vec<Generic2DGraphicsObject>,
}

impl View for Scene {
    type V = Seq<EntityModel>;

    closed spec fn view(&self) -> Seq<EntityModel> {
        self.objects@.map_values(|e: Generic2DGraphicsObject| e@)
    }
}

impl Scene {
    pub fn new() -> (r: Self)
        ensures
            r@ == Seq::<EntityModel>::empty(),
    {
        let r = Scene { objects: Vec::new() };
        assert(r@ =~= Seq::<EntityModel>::empty());
        r
    }

    pub fn add_object(&mut self, obj: Generic2DGraphicsObject)
        ensures
            final(self)@ == old(self)@.push(obj@),
    {
        self.objects.push(obj);
        assert(self@ =~= old(self)@.push(obj@));
    }

    pub fn get_objects(&self) -> (r: &Vec<Generic2DGraphicsObject>)
        ensures
            r@.map_values(|e: Generic2DGraphicsObject| e@) == self@,
    {
        &self.objects
    }
}

/// Scenes as `(name, scene)` entries.
pub open spec fn named_scenes(v: Seq<(String, Scene)>) -> Seq<(Seq<char>, Seq<EntityModel>)> {
    v.map_values(|e: (String, Scene)| (e.0@, e.1@))
}

/// The store of scenes, keyed by name.
pub struct SceneManager {
    scenes: Vec<(String, Scene)>,
}

impl View for SceneManager {
    type V = Map<Seq<char>, Seq<EntityModel>>;

    closed spec fn view(&self) -> Map<Seq<char>, Seq<EntityModel>> {
        keyed_map(named_scenes(self.scenes@))
    }
}

impl SceneManager {
    /// No two scenes share a name.
    pub closed spec fn wf(&self) -> bool {
        keys_unique(named_scenes(self.scenes@))
    }

    pub fn new() -> (r: Self)
        ensures
            r.wf(),
            r@ == Map::<Seq<char>, Seq<EntityModel>>::empty(),
    {
        let r = SceneManager { scenes: Vec::new() };
        assert(named_scenes(r.scenes@) =~= Seq::<(Seq<char>, Seq<EntityModel>)>::empty());
        r
    }

    /// The position of the scene named `name`, if any.
    fn find(&self, name: &str) -> (r: Option<usize>)
        ensures
            r matches Some(i) ==> i < self.scenes@.len() && self.scenes@[i as int].0@ == name@,
            r is None ==> forall|i: int| 0 <= i < self.scenes@.len() ==> self.scenes@[i].0@ != name@,
    {
        let key = name.to_owned();
        let mut i: usize = 0;
        while i < self.scenes.len()
            invariant
                i <= self.scenes@.len(),
                key@ == name@,
                forall|j: int| 0 <= j < i ==> self.scenes@[j].0@ != name@,
            decreases self.scenes@.len() - i,
        {
            if self.scenes[i].0 == key {
                return Some(i);
            }
            i += 1;
        }
        None
    }

    /// Stores `scene` under `name`, replacing a scene of that name.
    pub fn add_scene(&mut self, name: String, scene: Scene)
        requires
            old(self).wf(),
        ensures
            final(self).wf(),
            final(self)@ == old(self)@.insert(name@, scene@),
    {
        let ghost old_s = named_scenes(self.scenes@);
        let ghost key = name@;
        let ghost value = scene@;
        match self.find(name.as_str()) {
            Some(i) => {
                proof {
                    lemma_keyed_update(old_s, i as int, value);
                }
                let mut entry = (name, scene);
                std::mem::swap(&mut self.scenes[i], &mut entry);
                assert(named_scenes(self.scenes@) =~= old_s.update(i as int, (old_s[i as int].0, value)));
            },
            None => {
                proof {
                    lemma_keyed_absent(old_s, key);
                    lemma_keyed_push(old_s, key, value);
                }
                self.scenes.push((name, scene));
                assert(named_scenes(self.scenes@) =~= old_s.push((key, value)));
            },
        }
    }

    /// The scene stored under `name`, if any.
    pub fn get_scene(&self, name: &str) -> (r: Option<&Scene>)
        requires
            self.wf(),
        ensures
            r is Some <==> self@.contains_key(name@),
            r matches Some(s) ==> s@ == self@[name@],
    {
        proof {
            lemma_keyed_map(named_scenes(self.scenes@));
        }
        match self.find(name) {
            Some(i) => {
                assert(named_scenes(self.scenes@)[i as int] == (self.scenes@[i as int].0@, self.scenes@[i as int].1@));
                Some(&self.scenes[i].1)
            },
            None => {
                proof {
                    lemma_keyed_absent(named_scenes(self.scenes@), name@);
                }
                None
            },
        }
    }

    /// Removes the scene stored under `name` and returns it, if any.
    pub fn remove_scene(&mut self, name: &str) -> (r: Option<Scene>)
        requires
            old(self).wf(),
        ensures
            final(self).wf(),
            final(self)@ == old(self)@.remove(name@),
            r is Some <==> old(self)@.contains_key(name@),
            r matches Some(s) ==> s@ == old(self)@[name@],
    {
        let ghost old_s = named_scenes(self.scenes@);
        match self.find(name) {
            Some(i) => {
                proof {
                    assert(old_s[i as int].0 == name@);
                    lemma_keyed_remove(old_s, i as int);
                    lemma_keyed_map(old_s);
                }
                let (_, scene) = self.scenes.remove(i);
                assert(named_scenes(self.scenes@) =~= old_s.remove(i as int));
                Some(scene)
            },
            None => {
                proof {
                    lemma_keyed_absent(old_s, name@);
                    assert(self@ =~= old(self)@.remove(name@));
                }
                None
            },
        }
    }

    /// The names of all scenes, each once, in storage order.
    pub fn list_scenes(&self) -> (r: Vec<String>)
        requires
            self.wf(),
        ensures
            r@.len() == self@.dom().len(),
            forall|i: int| 0 <= i < r@.len() ==> #[trigger] self@.contains_key(r@[i]@),
            forall|k: Seq<char>| #[trigger] self@.contains_key(k) ==> exists|i: int| 0 <= i < r@.len() && r@[i]@ == k,
    {
        let ghost s = named_scenes(self.scenes@);
        proof {
            lemma_keyed_map(s);
        }
        let mut names: Vec<String> = Vec::new();
        let mut i: usize = 0;
        while i < self.scenes.len()
            invariant
                i <= self.scenes@.len(),
                s == named_scenes(self.scenes@),
                names@.len() == i,
                forall|j: int| 0 <= j < i ==> #[trigger] names@[j]@ == s[j].0,
            decreases self.scenes@.len() - i,
        {
            names.push(self.scenes[i].0.clone());
            i += 1;
        }
        proof {
            let ks = s.map_values(|e: (Seq<char>, Seq<EntityModel>)| e.0);
            assert forall|a: int, b: int| 0 <= a < ks.len() && 0 <= b < ks.len() && a != b implies ks[a]
                != ks[b] by {
                assert(ks[a] == s[a].0);
                assert(ks[b] == s[b].0);
            }
            ks.unique_seq_to_set();
            assert(ks.to_set() =~= self@.dom()) by {
                assert forall|k: Seq<char>| ks.to_set().contains(k) <==> #[trigger] self@.dom().contains(k) by {
                    if ks.to_set().contains(k) {
                        let j = choose|j: int| 0 <= j < ks.len() && ks[j] == k;
                        assert(s[j].0 == k);
                    }
                    if self@.dom().contains(k) {
                        let j = choose|j: int| 0 <= j < s.len() && s[j].0 == k;
                        assert(ks[j] == k);
                    }
                }
            }
            assert forall|i: int| 0 <= i < names@.len() implies #[trigger] self@.contains_key(names@[i]@) by {
                assert(names@[i]@ == s[i].0);
            }
            assert forall|k: Seq<char>| #[trigger] self@.contains_key(k) implies exists|i: int|
                0 <= i < names@.len() && names@[i]@ == k by {
                let j = choose|j: int| 0 <= j < s.len() && s[j].0 == k;
                assert(names@[j]@ == k);
            }
        }
        names
    }
}

} // verus!
