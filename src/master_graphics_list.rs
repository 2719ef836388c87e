//! The registry of drawable entities, keyed by name.
use crate::graphics_object::{drawn_step, EntityModel, Generic2DGraphicsObject};
use crate::keyed::{
    keyed_map, keys_unique, lemma_keyed_absent, lemma_keyed_map, lemma_keyed_push, lemma_keyed_remove,
    lemma_keyed_update,
};
use vstd::prelude::*;

verus! {

/// Entities as `(name, model)` entries.
pub open spec fn named(v: Seq<Generic2DGraphicsObject>) -> Seq<(Seq<char>, EntityModel)> {
    v.map_values(|e: Generic2DGraphicsObject| (e@.name, e@))
}

/// The name-keyed registry of drawable entities. Adding an entity whose
/// name is taken replaces the old entry and hands it back, so that its GPU
/// objects can be released.
pub struct MasterGraphicsList {
    objects: Vec<Generic2DGraphicsObject>,
}

impl View for MasterGraphicsList {
    type V = Map<Seq<char>, EntityModel>;

    closed spec fn view(&self) -> Map<Seq<char>, EntityModel> {
        keyed_map(named(self.objects@))
    }
}

impl MasterGraphicsList {
    /// No two stored entities share a name.
    pub closed spec fn wf(&self) -> bool {
        keys_unique(named(self.objects@))
    }

    pub fn new() -> (r: Self)
        ensures
            r.wf(),
            r@ == Map::<Seq<char>, EntityModel>::empty(),
    {
        MasterGraphicsList { objects: Vec::new() }
    }

    /// The position of the entry named `name`, if any.
    fn find(&self, name: &str) -> (r: Option<usize>)
        ensures
            r matches Some(i) ==> i < self.objects@.len() && self.objects@[i as int]@.name == name@,
            r is None ==> forall|i: int| 0 <= i < self.objects@.len() ==> self.objects@[i]@.name != name@,
    {
        let key = name.to_owned();
        let mut i: usize = 0;
        while i < self.objects.len()
            invariant
                i <= self.objects@.len(),
                key@ == name@,
                forall|j: int| 0 <= j < i ==> self.objects@[j]@.name != name@,
            decreases self.objects@.len() - i,
        {
            if self.objects[i].has_name(&key) {
                return Some(i);
            }
            i += 1;
        }
        None
    }

    /// Adds `obj` under its own name. An entity already stored under that
    /// name is replaced and returned.
    pub fn add_object(&mut self, obj: Generic2DGraphicsObject) -> (r: Option<Generic2DGraphicsObject>)
        requires
            old(self).wf(),
        ensures
            final(self).wf(),
            final(self)@ == old(self)@.insert(obj@.name, obj@),
            r is Some <==> old(self)@.contains_key(obj@.name),
            r matches Some(e) ==> e@ == old(self)@[obj@.name],
    {
        let ghost old_s = named(self.objects@);
        let mut obj = obj;
        match self.find(obj.get_name()) {
            Some(i) => {
                proof {
                    lemma_keyed_update(old_s, i as int, obj@);
                    lemma_keyed_map(old_s);
                }
                std::mem::swap(&mut self.objects[i], &mut obj);
                assert(named(self.objects@) =~= old_s.update(i as int, (old_s[i as int].0, self.objects@[i as int]@)));
                Some(obj)
            },
            None => {
                proof {
                    lemma_keyed_absent(old_s, obj@.name);
                    lemma_keyed_push(old_s, obj@.name, obj@);
                }
                let ghost m = obj@;
                self.objects.push(obj);
                assert(named(self.objects@) =~= old_s.push((m.name, m)));
                None
            },
        }
    }

    /// The entity stored under `name`, if any.
    pub fn get_object(&self, name: &str) -> (r: Option<&Generic2DGraphicsObject>)
        requires
            self.wf(),
        ensures
            r is Some <==> self@.contains_key(name@),
            r matches Some(e) ==> e@ == self@[name@],
    {
        proof {
            lemma_keyed_map(named(self.objects@));
        }
        match self.find(name) {
            Some(i) => {
                assert(named(self.objects@)[i as int] == (self.objects@[i as int]@.name, self.objects@[i as int]@));
                Some(&self.objects[i])
            },
            None => {
                proof {
                    lemma_keyed_absent(named(self.objects@), name@);
                }
                None
            },
        }
    }

    /// All entities, in storage order.
    pub fn get_objects(&self) -> (r: &Vec<Generic2DGraphicsObject>)
        requires
            self.wf(),
        ensures
            keyed_map(named(r@)) == self@,
            keys_unique(named(r@)),
    {
        &self.objects
    }

    /// Removes the entity stored under `name` and returns it, if any.
    pub fn remove_object(&mut self, name: &str) -> (r: Option<Generic2DGraphicsObject>)
        requires
            old(self).wf(),
        ensures
            final(self).wf(),
            final(self)@ == old(self)@.remove(name@),
            r is Some <==> old(self)@.contains_key(name@),
            r matches Some(e) ==> e@ == old(self)@[name@],
    {
        let ghost old_s = named(self.objects@);
        match self.find(name) {
            Some(i) => {
                proof {
                    assert(old_s[i as int].0 == name@);
                    lemma_keyed_remove(old_s, i as int);
                    lemma_keyed_map(old_s);
                }
                let removed = self.objects.remove(i);
                assert(named(self.objects@) =~= old_s.remove(i as int));
                Some(removed)
            },
            None => {
                proof {
                    lemma_keyed_absent(old_s, name@);
                    assert(self@ =~= old(self)@.remove(name@));
                }
                None
            },
        }
    }

    /// Empties the registry and returns every entity it held, so that their
    /// GPU objects can be released.
    pub fn remove_all(&mut self) -> (r: Vec<Generic2DGraphicsObject>)
        requires
            old(self).wf(),
        ensures
            final(self).wf(),
            final(self)@ == Map::<Seq<char>, EntityModel>::empty(),
            keyed_map(named(r@)) == old(self)@,
            keys_unique(named(r@)),
    {
        let mut all: Vec<Generic2DGraphicsObject> = Vec::new();
        std::mem::swap(&mut self.objects, &mut all);
        assert(named(self.objects@) =~= Seq::<(Seq<char>, EntityModel)>::empty());
        all
    }

    /// Advances the animation of every entity by `delta_time` microseconds,
    /// drawing the frame of each random animation from its own frame range.
    /// This is the part of a frame's draw pass that changes entity state.
    pub fn update_all(&mut self, delta_time: u64)
        requires
            old(self).wf(),
        ensures
            final(self).wf(),
            final(self)@.dom() == old(self)@.dom(),
            forall|k: Seq<char>| #[trigger] final(self)@.contains_key(k) ==> exists|pick: usize|
                drawn_step(old(self)@[k], final(self)@[k], delta_time, pick),
    {
        let ghost old_s = named(self.objects@);
        let mut i: usize = 0;
        while i < self.objects.len()
            invariant
                i <= self.objects@.len(),
                self.objects@.len() == old_s.len(),
                keys_unique(named(self.objects@)),
                forall|j: int| 0 <= j < i ==> (#[trigger] named(self.objects@)[j]).0 == old_s[j].0 && exists|pick: usize|
                    drawn_step(old_s[j].1, named(self.objects@)[j].1, delta_time, pick),
                forall|j: int| i <= j < self.objects@.len() ==> #[trigger] named(self.objects@)[j] == old_s[j],
            decreases self.objects@.len() - i,
        {
            let ghost before = named(self.objects@);
            let ghost entity_before = self.objects@[i as int]@;
            self.objects[i].update_animation(delta_time);
            proof {
                lemma_keyed_update(before, i as int, self.objects@[i as int]@);
            }
            assert(named(self.objects@) =~= before.update(i as int, (before[i as int].0, self.objects@[i as int]@)));
            assert forall|j: int| 0 <= j < i + 1 implies (#[trigger] named(self.objects@)[j]).0 == old_s[j].0
                && exists|pick: usize| drawn_step(old_s[j].1, named(self.objects@)[j].1, delta_time, pick) by {
                if j < i {
                    assert(named(self.objects@)[j] == before[j]);
                } else {
                    assert(before[j] == old_s[j]);
                    assert(entity_before == old_s[j].1);
                    assert(named(self.objects@)[j].1 == self.objects@[i as int]@);
                }
            }
            i += 1;
        }
        let ghost s = named(self.objects@);
        proof {
            lemma_keyed_map(s);
            lemma_keyed_map(old_s);
            assert forall|k: Seq<char>| #[trigger] self@.contains_key(k) <==> old(self)@.contains_key(k) by {
                if self@.contains_key(k) {
                    let j = choose|j: int| 0 <= j < s.len() && s[j].0 == k;
                    assert(old_s[j].0 == k);
                }
                if old(self)@.contains_key(k) {
                    let j = choose|j: int| 0 <= j < old_s.len() && old_s[j].0 == k;
                    assert(s[j].0 == k);
                }
            }
            assert(self@.dom() =~= old(self)@.dom());
            assert forall|k: Seq<char>| #[trigger] self@.contains_key(k) implies exists|pick: usize|
                drawn_step(old(self)@[k], self@[k], delta_time, pick) by {
                let j = choose|j: int| 0 <= j < s.len() && s[j].0 == k;
                assert(old_s[j].0 == k);
                assert(self@[k] == s[j].1);
                assert(old(self)@[k] == old_s[j].1);
            }
        }
    }
}

/// Adding an entity and looking its name up gives back that entity, pose
/// included; after removing the name, the lookup finds nothing.
pub proof fn lemma_registry_round_trip(m: Map<Seq<char>, EntityModel>, e: EntityModel)
    ensures
        m.insert(e.name, e).contains_key(e.name),
        m.insert(e.name, e)[e.name] == e,
        !m.insert(e.name, e).remove(e.name).contains_key(e.name),
{
}

} // verus!
