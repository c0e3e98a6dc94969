//! The CSS classes that show where a dragged row would be dropped.
use vstd::prelude::*;
use vstd::string::*;
use crate::text::str_eq;

verus! {

broadcast use vstd::seq_lib::group_seq_properties;

/// The class names of a widget, as texts, in order.
pub open spec fn class_names(classes: Seq<String>) -> Seq<Seq<char>> {
    classes.map_values(|c: String| c@)
}

/// Whether a name differs from `n`.
pub open spec fn other_than(n: Seq<char>) -> spec_fn(Seq<char>) -> bool {
    |x: Seq<char>| x != n
}

/// `names` without the name `n`.
pub open spec fn without_class(names: Seq<Seq<char>>, n: Seq<char>) -> Seq<Seq<char>> {
    names.filter(other_than(n))
}

/// `names` with the name `n` added at the end, unless it is there already.
pub open spec fn with_class(names: Seq<Seq<char>>, n: Seq<char>) -> Seq<Seq<char>> {
    if names.contains(n) {
        names
    } else {
        names.push(n)
    }
}

/// The class that marks a row as a drop target above.
pub open spec fn top_class() -> Seq<char> {
    "drag-indicator-top"@
}

/// The class that marks a row as a drop target below.
pub open spec fn bottom_class() -> Seq<char> {
    "drag-indicator-bottom"@
}

/// The class of a row that is no drop target.
pub open spec fn padding_class() -> Seq<char> {
    "padd-item"@
}

proof fn lemma_names_push(s: Seq<String>, c: String)
    ensures
        class_names(s.push(c)) == class_names(s).push(c@),
{
    assert(class_names(s.push(c)) =~= class_names(s).push(c@));
}

/// Removes the class `name`.
fn remove_class(classes: &mut Vec<String>, name: &str)
    ensures
        class_names(final(classes)@) == without_class(class_names(old(classes)@), name@),
{
    let ghost orig = classes@;
    let ghost p = other_than(name@);
    let mut kept: Vec<String> = Vec::new();
    let mut i: usize = 0;
    while i < classes.len()
        invariant
            0 <= i <= classes@.len(),
            classes@ == orig,
            p == other_than(name@),
            class_names(kept@) == class_names(orig.subrange(0, i as int)).filter(p),
        decreases classes@.len() - i,
    {
        let c = &classes[i];
        proof {
            let s0 = orig.subrange(0, i as int);
            assert(orig.subrange(0, i + 1) =~= s0.push(*c));
            lemma_names_push(s0, *c);
            class_names(s0).lemma_filter_push(c@, p);
        }
        if !str_eq(c.as_str(), name) {
            let copy = c.clone();
            proof {
                lemma_names_push(kept@, copy);
            }
            kept.push(copy);
        }
        i = i + 1;
    }
    proof {
        assert(orig.subrange(0, orig.len() as int) =~= orig);
    }
    *classes = kept;
}

/// Adds the class `name`, unless the widget has it.
fn add_class(classes: &mut Vec<String>, name: &str)
    ensures
        class_names(final(classes)@) == with_class(class_names(old(classes)@), name@),
{
    let mut i: usize = 0;
    while i < classes.len()
        invariant
            0 <= i <= classes@.len(),
            forall|j: int| 0 <= j < i ==> (#[trigger] classes@[j])@ != name@,
        decreases classes@.len() - i,
    {
        if str_eq(classes[i].as_str(), name) {
            proof {
                assert(class_names(classes@)[i as int] == name@);
            }
            return;
        }
        i = i + 1;
    }
    proof {
        assert forall|k: int| 0 <= k < class_names(classes@).len() implies class_names(classes@)[k] != name@ by {
            assert(classes@[k]@ != name@);
        }
    }
    let added = String::from_str(name);
    proof {
        lemma_names_push(classes@, added);
    }
    classes.push(added);
}

/// Marks of the drop target shown on a row while a row is dragged over it.
pub struct DragState {}

impl DragState {
    /// No mark: the drop-target classes leave, the padding class is added.
    pub fn reset(classes: &mut Vec<String>)
        ensures
            class_names(final(classes)@) == with_class(
                without_class(without_class(class_names(old(classes)@), top_class()), bottom_class()),
                padding_class(),
            ),
    {
        remove_class(classes, "drag-indicator-top");
        remove_class(classes, "drag-indicator-bottom");
        add_class(classes, "padd-item");
    }

    /// The row is the drop target above: the class for below and the padding class leave,
    /// the class for above is added.
    pub fn drop_shadow_top(classes: &mut Vec<String>)
        ensures
            class_names(final(classes)@) == with_class(
                without_class(without_class(class_names(old(classes)@), bottom_class()), padding_class()),
                top_class(),
            ),
    {
        remove_class(classes, "drag-indicator-bottom");
        remove_class(classes, "padd-item");
        add_class(classes, "drag-indicator-top");
    }

    /// The row is the drop target below: the class for above and the padding class leave,
    /// the class for below is added.
    pub fn drop_shadow_bottom(classes: &mut Vec<String>)
        ensures
            class_names(final(classes)@) == with_class(
                without_class(without_class(class_names(old(classes)@), top_class()), padding_class()),
                bottom_class(),
            ),
    {
        remove_class(classes, "drag-indicator-top");
        remove_class(classes, "padd-item");
        add_class(classes, "drag-indicator-bottom");
    }
}

/// After any of the three marks, a row carries exactly one of the three drop classes.
pub proof fn law_one_drop_class(names: Seq<Seq<char>>, mark: Seq<char>, gone1: Seq<char>, gone2: Seq<char>)
    requires
        mark != gone1 && mark != gone2,
    ensures
        ({
            let r = with_class(without_class(without_class(names, gone1), gone2), mark);
            &&& r.contains(mark)
            &&& !r.contains(gone1)
            &&& !r.contains(gone2)
        }),
{
    let a = without_class(names, gone1);
    let b = without_class(a, gone2);
    let p1 = other_than(gone1);
    let p2 = other_than(gone2);
    assert(!a.contains(gone1)) by {
        if a.contains(gone1) {
            let k = choose|k: int| 0 <= k < a.len() && a[k] == gone1;
            names.lemma_filter_pred(p1, k);
        }
    }
    assert(!b.contains(gone2)) by {
        if b.contains(gone2) {
            let k = choose|k: int| 0 <= k < b.len() && b[k] == gone2;
            a.lemma_filter_pred(p2, k);
        }
    }
    assert(!b.contains(gone1)) by {
        if b.contains(gone1) {
            a.lemma_filter_contains_rev(p2, gone1);
        }
    }
    let r = with_class(b, mark);
    if !b.contains(mark) {
        assert(r[r.len() - 1] == mark);
        assert forall|x: Seq<char>| r.contains(x) && x != mark implies b.contains(x) by {
            let k = choose|k: int| 0 <= k < r.len() && r[k] == x;
            assert(k < b.len());
            assert(b[k] == x);
        }
    }
}

} // verus!
