use vstd::prelude::*;
use vstd::string::*;

use crate::text::{occurs_at, occurs_in, replace_all, replace_str};

verus! {

/// An entity of the simulation world, identified by its bits
/// (the value `Entity::to_bits` gives).
pub type EntityId = u64;

/// Path of a body's 3D model as the asset server loads it:
/// `models/<file>#Scene0`.
pub struct ModelPath(pub String);

/// Directory prefix of every model path.
pub open spec fn model_prefix() -> Seq<char> {
    seq!['m', 'o', 'd', 'e', 'l', 's', '/']
}

/// Scene label suffix of every model path.
pub open spec fn scene_suffix() -> Seq<char> {
    seq!['#', 'S', 'c', 'e', 'n', 'e', '0']
}

impl ModelPath {
    /// The model file name: the path with every `models/` and every `#Scene0` removed.
    pub fn cleaned(&self) -> (res: String)
        ensures
            res@ == replace_all(
                replace_all(self.0@, model_prefix(), Seq::empty()),
                scene_suffix(),
                Seq::empty(),
            ),
    {
        proof {
            reveal_strlit("models/");
            reveal_strlit("#Scene0");
            reveal_strlit("");
        }
        assert("models/"@ =~= model_prefix());
        assert("#Scene0"@ =~= scene_suffix());
        assert(""@ =~= Seq::<char>::empty());
        let without_dir = replace_str(self.0.as_str(), "models/", "");
        replace_str(without_dir.as_str(), "#Scene0", "")
    }

    /// The model path for a model file name: `models/<value>#Scene0`.
    pub fn from_cleaned(value: &str) -> (res: ModelPath)
        ensures
            res.0@ == model_prefix() + value@ + scene_suffix(),
    {
        proof {
            reveal_strlit("models/");
            reveal_strlit("#Scene0");
        }
        let mut path = String::from_str("models/");
        path.append(value);
        path.append("#Scene0");
        assert(path@ =~= model_prefix() + value@ + scene_suffix());
        ModelPath(path)
    }
}

/// With no occurrence of `pat`, replacing leaves a sequence unchanged.
proof fn lemma_replace_absent(s: Seq<char>, pat: Seq<char>, rep: Seq<char>)
    requires
        pat.len() > 0,
        !occurs_in(s, pat),
    ensures
        replace_all(s, pat, rep) == s,
    decreases s.len(),
{
    if s.len() > 0 {
        if pat.len() <= s.len() && s.take(pat.len() as int) == pat {
            assert(s.subrange(0, pat.len() as int) == s.take(pat.len() as int));
            assert(occurs_at(s, pat, 0));
        }
        let t = s.skip(1);
        assert forall|i: int| !occurs_at(t, pat, i) by {
            if occurs_at(t, pat, i) {
                assert(s.subrange(i + 1, i + 1 + pat.len()) =~= t.subrange(i, i + pat.len()));
                assert(occurs_at(s, pat, i + 1));
            }
        }
        lemma_replace_absent(t, pat, rep);
        assert(s =~= seq![s[0]] + t);
    }
}

/// A leading occurrence of `pat` is replaced by `rep`.
proof fn lemma_replace_leading(t: Seq<char>, pat: Seq<char>, rep: Seq<char>)
    requires
        pat.len() > 0,
    ensures
        replace_all(pat + t, pat, rep) == rep + replace_all(t, pat, rep),
{
    let s = pat + t;
    assert(s.take(pat.len() as int) =~= pat);
    assert(s.skip(pat.len() as int) =~= t);
}

/// A prefix in which no occurrence of `pat` starts is copied unchanged.
proof fn lemma_replace_clean_prefix(x: Seq<char>, tail: Seq<char>, pat: Seq<char>, rep: Seq<char>)
    requires
        pat.len() > 0,
        forall|i: int| 0 <= i < x.len() ==> !occurs_at(x + tail, pat, i),
    ensures
        replace_all(x + tail, pat, rep) == x + replace_all(tail, pat, rep),
    decreases x.len(),
{
    if x.len() == 0 {
        assert(x + tail =~= tail);
        assert(x + replace_all(tail, pat, rep) =~= replace_all(tail, pat, rep));
    } else {
        let s = x + tail;
        if pat.len() <= s.len() && s.take(pat.len() as int) == pat {
            assert(s.subrange(0, pat.len() as int) == s.take(pat.len() as int));
            assert(occurs_at(s, pat, 0));
        }
        let x1 = x.skip(1);
        assert(s.skip(1) =~= x1 + tail);
        assert forall|i: int| 0 <= i < x1.len() implies !occurs_at(x1 + tail, pat, i) by {
            if occurs_at(x1 + tail, pat, i) {
                assert(s.subrange(i + 1, i + 1 + pat.len()) =~= (x1 + tail).subrange(i, i + pat.len()));
                assert(occurs_at(s, pat, i + 1));
            }
        }
        lemma_replace_clean_prefix(x1, tail, pat, rep);
        assert(x =~= seq![x[0]] + x1);
        assert(s[0] == x[0]);
        assert(seq![x[0]] + (x1 + replace_all(tail, pat, rep)) =~= x + replace_all(tail, pat, rep));
    }
}

/// No character of `#Scene0` is the first character of `models/`, and no character
/// after the first one of `models/` is `#`.
proof fn lemma_pattern_chars()
    ensures
        forall|k: int| 0 <= k < scene_suffix().len() ==> #[trigger] scene_suffix()[k] != model_prefix()[0],
        forall|k: int| 1 <= k < model_prefix().len() ==> #[trigger] model_prefix()[k] != scene_suffix()[0],
        forall|k: int| 1 <= k < scene_suffix().len() ==> #[trigger] scene_suffix()[k] != scene_suffix()[0],
{
}

/// `models/` does not occur in `value + #Scene0` when it does not occur in `value`.
proof fn lemma_prefix_absent(value: Seq<char>)
    requires
        !occurs_in(value, model_prefix()),
    ensures
        !occurs_in(value + scene_suffix(), model_prefix()),
{
    let p = model_prefix();
    let s = scene_suffix();
    let xs = value + s;
    lemma_pattern_chars();
    assert forall|i: int| !occurs_at(xs, p, i) by {
        if occurs_at(xs, p, i) {
            let sub = xs.subrange(i, i + p.len());
            if i + p.len() <= value.len() {
                assert(value.subrange(i, i + p.len()) =~= sub);
                assert(occurs_at(value, p, i));
            } else if i >= value.len() {
                assert(sub[0] == xs[i]);
                assert(xs[i] == s[i - value.len()]);
            } else {
                let k = value.len() - i;
                assert(sub[k] == xs[value.len() as int]);
                assert(xs[value.len() as int] == s[0]);
            }
        }
    }
}

/// In `value + #Scene0`, no occurrence of `#Scene0` starts inside `value`
/// when `value` itself does not contain it.
proof fn lemma_suffix_only_at_end(value: Seq<char>)
    requires
        !occurs_in(value, scene_suffix()),
    ensures
        forall|i: int| 0 <= i < value.len() ==> !occurs_at(value + scene_suffix(), scene_suffix(), i),
{
    let s = scene_suffix();
    let xs = value + s;
    lemma_pattern_chars();
    assert forall|i: int| 0 <= i < value.len() implies !occurs_at(xs, s, i) by {
        if occurs_at(xs, s, i) {
            let sub = xs.subrange(i, i + s.len());
            if i + s.len() <= value.len() {
                assert(value.subrange(i, i + s.len()) =~= sub);
                assert(occurs_at(value, s, i));
            } else {
                let k = value.len() - i;
                assert(sub[k] == xs[value.len() as int]);
                assert(xs[value.len() as int] == s[0]);
            }
        }
    }
}

/// Law: turning a model file name into a model path and cleaning it again gives the
/// file name back, for every file name that itself contains neither `models/` nor
/// `#Scene0`.
pub proof fn lemma_model_path_round_trip(value: Seq<char>)
    requires
        !occurs_in(value, model_prefix()),
        !occurs_in(value, scene_suffix()),
    ensures
        replace_all(
            replace_all(model_prefix() + value + scene_suffix(), model_prefix(), Seq::empty()),
            scene_suffix(),
            Seq::empty(),
        ) == value,
{
    let p = model_prefix();
    let s = scene_suffix();
    let e = Seq::<char>::empty();
    let xs = value + s;
    assert(p + value + s =~= p + xs);
    lemma_replace_leading(xs, p, e);
    assert(e + replace_all(xs, p, e) =~= replace_all(xs, p, e));
    lemma_prefix_absent(value);
    lemma_replace_absent(xs, p, e);
    lemma_suffix_only_at_end(value);
    lemma_replace_clean_prefix(value, s, s, e);
    assert(s =~= s + e);
    lemma_replace_leading(e, s, e);
    assert(replace_all(e, s, e) == e);
    assert(value + (e + e) =~= value);
}

/// Marks a body as a star.
pub struct Star {
    pub use_imposter: bool,
}

/// Marks a body as a planet.
pub struct Planet;

/// Marks a body as a moon.
pub struct Moon;

/// Marks the entity holding a body's 3D scene.
pub struct SceneEntity;

/// Whether a body's name billboard is currently shown.
pub struct BillboardVisible(pub bool);

/// The bodies orbiting a body.
pub struct BodyChildren(pub Vec<EntityId>);

/// The body a body orbits.
pub struct BodyParent(pub EntityId);

/// Which extreme of an orbit an apsis is.
pub enum ApsisType {
    Aphelion,
    Perihelion,
}

} // verus!
