//! Style selectors (`Element.class#id:state`): parsing, matching and
//! specificity.
use vstd::prelude::*;
use vstd::utf8::*;
use crate::text::{
    is_unicode_whitespace, lemma_first_char_index, lemma_split_at_ascii, split_at_first_byte,
    split_once_byte, str_eq, trim_chars, trim_to_string,
};

verus! {

/// Interaction state a selector can require.
#[derive(Debug, Clone, Copy, PartialEq, Eq, Hash, Structural)]
pub enum PseudoState {
    Hover,
    Active,
    Focused,
    Disabled,
}

/// A simple selector; every part that is present must match.
#[derive(Debug, Clone, PartialEq, Eq, Hash, Default)]
pub struct Selector {
    pub element: Option<String>,
    pub class: Option<String>,
    pub id: Option<String>,
    pub pseudo_state: Option<PseudoState>,
}

/// A selector as text.
pub struct SelectorView {
    pub element: Option<Seq<char>>,
    pub class: Option<Seq<char>>,
    pub id: Option<Seq<char>>,
    pub pseudo_state: Option<PseudoState>,
}

pub open spec fn opt_text(o: Option<String>) -> Option<Seq<char>> {
    match o {
        Some(s) => Some(s@),
        None => None,
    }
}

pub open spec fn opt_str_text(o: Option<&str>) -> Option<Seq<char>> {
    match o {
        Some(s) => Some(s@),
        None => None,
    }
}

impl View for Selector {
    type V = SelectorView;

    open spec fn view(&self) -> SelectorView {
        SelectorView {
            element: opt_text(self.element),
            class: opt_text(self.class),
            id: opt_text(self.id),
            pseudo_state: self.pseudo_state,
        }
    }
}

/// Whether `sel` matches an element of type `element` with classes
/// `classes`, id `id` and interaction state `state`: the element part must
/// equal `element` or be `*`, the class part must be one of `classes`, the id
/// part must equal `id`, and a required state must equal `state`.
pub open spec fn selector_matches(
    sel: SelectorView,
    element: Seq<char>,
    classes: Seq<Seq<char>>,
    id: Option<Seq<char>>,
    state: Option<PseudoState>,
) -> bool {
    &&& sel.element matches Some(e) ==> (e == element || e == "*"@)
    &&& sel.class matches Some(c) ==> classes.contains(c)
    &&& sel.id matches Some(i) ==> id == Some(i)
    &&& sel.pseudo_state is Some ==> sel.pseudo_state == state
}

/// CSS-style specificity: 100 for an id, 10 for a class, 10 for a state, 1
/// for an element type.
pub open spec fn selector_specificity(sel: SelectorView) -> u32 {
    ((if sel.id is Some {
        100u32
    } else {
        0u32
    }) + (if sel.class is Some {
        10u32
    } else {
        0u32
    }) + (if sel.pseudo_state is Some {
        10u32
    } else {
        0u32
    }) + (if sel.element is Some {
        1u32
    } else {
        0u32
    })) as u32
}

/// The state a pseudo-class names; unknown names name none.
pub open spec fn pseudo_state_named(p: Seq<char>) -> Option<PseudoState> {
    if p == "hover"@ {
        Some(PseudoState::Hover)
    } else if p == "active"@ || p == "pressed"@ {
        Some(PseudoState::Active)
    } else if p == "focus"@ || p == "focused"@ {
        Some(PseudoState::Focused)
    } else if p == "disabled"@ {
        Some(PseudoState::Disabled)
    } else {
        None
    }
}

/// The selector that the text `input` denotes: after trimming, the part
/// after the first `:` names the state; of the rest, the part after the
/// first `#` is the id; of what remains, the part after the first `.` is the
/// class; anything left is the element type.
pub open spec fn parse_selector_spec(input: Seq<char>) -> SelectorView {
    let s0 = trim_chars(input);
    let (s1, pseudo) = match split_at_first_byte(s0, 58) {
        Some((a, b)) => (trim_chars(a), pseudo_state_named(trim_chars(b))),
        None => (s0, None),
    };
    let (s2, id) = match split_at_first_byte(s1, 35) {
        Some((a, b)) => (a, Some(trim_chars(b))),
        None => (s1, None),
    };
    let (s3, class) = match split_at_first_byte(s2, 46) {
        Some((a, b)) => (a, Some(trim_chars(b))),
        None => (s2, None),
    };
    let element = if s3.len() != 0 {
        Some(trim_chars(s3))
    } else {
        None
    };
    SelectorView { element, class, id, pseudo_state: pseudo }
}

fn pseudo_state_from(p: &str) -> (r: Option<PseudoState>)
    ensures
        r == pseudo_state_named(p@),
{
    if str_eq(p, "hover") {
        Some(PseudoState::Hover)
    } else if str_eq(p, "active") || str_eq(p, "pressed") {
        Some(PseudoState::Active)
    } else if str_eq(p, "focus") || str_eq(p, "focused") {
        Some(PseudoState::Focused)
    } else if str_eq(p, "disabled") {
        Some(PseudoState::Disabled)
    } else {
        None
    }
}

/// Parses a selector such as `Button.primary:hover` or `VStack#app-root`.
pub fn parse_selector(input: &str) -> (sel: Selector)
    ensures
        sel@ == parse_selector_spec(input@),
{
    let t0 = trim_to_string(input);
    let mut pseudo_state: Option<PseudoState> = None;
    let s1: String = match split_once_byte(t0.as_str(), 58) {
        Some((a, b)) => {
            let pt = trim_to_string(b);
            pseudo_state = pseudo_state_from(pt.as_str());
            trim_to_string(a)
        },
        None => t0.clone(),
    };
    let mut id: Option<String> = None;
    let s2: String = match split_once_byte(s1.as_str(), 35) {
        Some((a, b)) => {
            id = Some(trim_to_string(b));
            a.to_owned()
        },
        None => s1.clone(),
    };
    let mut class: Option<String> = None;
    let s3: String = match split_once_byte(s2.as_str(), 46) {
        Some((a, b)) => {
            class = Some(trim_to_string(b));
            a.to_owned()
        },
        None => s2.clone(),
    };
    let element = if !s3.as_str().is_empty() {
        Some(trim_to_string(s3.as_str()))
    } else {
        None
    };
    Selector { element, class, id, pseudo_state }
}

impl Selector {
    /// Whether this selector matches an element of type `element` with the
    /// given classes, id and interaction state.
    pub fn matches(
        &self,
        element: &str,
        classes: &[&str],
        id: Option<&str>,
        state: Option<PseudoState>,
    ) -> (b: bool)
        ensures
            b == selector_matches(
                self@,
                element@,
                classes@.map_values(|c: &str| c@),
                opt_str_text(id),
                state,
            ),
    {
        let ghost cls_view = classes@.map_values(|c: &str| c@);
        if let Some(elem) = &self.element {
            if !str_eq(elem.as_str(), element) && !str_eq(elem.as_str(), "*") {
                return false;
            }
        }
        if let Some(cls) = &self.class {
            let mut found = false;
            let mut i: usize = 0;
            while i < classes.len()
                invariant
                    i <= classes.len(),
                    cls_view == classes@.map_values(|c: &str| c@),
                    found == exists|j: int| 0 <= j < i && cls_view[j] == cls@,
                decreases classes.len() - i,
            {
                if str_eq(classes[i], cls.as_str()) {
                    found = true;
                }
                proof {
                    assert(cls_view[i as int] == classes@[i as int]@);
                }
                i += 1;
            }
            if !found {
                return false;
            }
        }
        if let Some(self_id) = &self.id {
            match id {
                Some(given) => {
                    if !str_eq(given, self_id.as_str()) {
                        return false;
                    }
                },
                None => {
                    return false;
                },
            }
        }
        match (self.pseudo_state, state) {
            (Some(required), Some(actual)) => required == actual,
            (Some(_), None) => false,
            (None, _) => true,
        }
    }

    /// The selector's specificity: 100 per id, 10 per class, 10 per state,
    /// 1 per element type.
    pub fn specificity(&self) -> (score: u32)
        ensures
            score == selector_specificity(self@),
    {
        let mut score: u32 = 0;
        if self.id.is_some() {
            score += 100;
        }
        if self.class.is_some() {
            score += 10;
        }
        if self.pseudo_state.is_some() {
            score += 10;
        }
        if self.element.is_some() {
            score += 1;
        }
        score
    }
}

/// The views of a list of selectors.
pub open spec fn selectors_view(sels: Seq<Selector>) -> Seq<SelectorView> {
    Seq::new(sels.len(), |i: int| sels[i]@)
}

/// Whether rule `a` is applied before rule `b`: lower specificity first,
/// and rules of equal specificity in sheet order.
pub open spec fn applied_before(sels: Seq<SelectorView>, a: usize, b: usize) -> bool {
    let sa = selector_specificity(sels[a as int]);
    let sb = selector_specificity(sels[b as int]);
    sa < sb || (sa == sb && a < b)
}

/// The cascade of a sheet for one element: `order` holds exactly the
/// indices of the rules whose selectors match, each once, and applies them
/// by ascending specificity, equal specificity in sheet order; later rules
/// override earlier ones.
pub open spec fn is_cascade(
    order: Seq<usize>,
    sels: Seq<SelectorView>,
    element: Seq<char>,
    classes: Seq<Seq<char>>,
    id: Option<Seq<char>>,
    state: Option<PseudoState>,
) -> bool {
    &&& forall|k: int| 0 <= k < order.len() ==> #[trigger] order[k] < sels.len()
    &&& forall|i: usize|
        (#[trigger] order.contains(i)) <==> (i < sels.len() && selector_matches(
            sels[i as int],
            element,
            classes,
            id,
            state,
        ))
    &&& forall|a: int, b: int|
        0 <= a < b < order.len() ==> applied_before(sels, #[trigger] order[a], #[trigger] order[b])
}

/// The order in which a style sheet's rules apply to one element: the
/// matching rules by ascending specificity, equal specificity in sheet
/// order (the stable sort by specificity that resolving a style performs).
pub fn cascade_order(
    selectors: &Vec<Selector>,
    element: &str,
    classes: &[&str],
    id: Option<&str>,
    state: Option<PseudoState>,
) -> (order: Vec<usize>)
    ensures
        is_cascade(
            order@,
            selectors_view(selectors@),
            element@,
            classes@.map_values(|c: &str| c@),
            opt_str_text(id),
            state,
        ),
{
    let ghost sels = selectors_view(selectors@);
    let ghost cls = classes@.map_values(|c: &str| c@);
    let ghost idv = opt_str_text(id);
    let mut order: Vec<usize> = Vec::new();
    let mut keys: Vec<u32> = Vec::new();
    let mut i: usize = 0;
    while i < selectors.len()
        invariant
            i <= selectors.len(),
            sels == selectors_view(selectors@),
            cls == classes@.map_values(|c: &str| c@),
            idv == opt_str_text(id),
            keys.len() == order.len(),
            forall|k: int| 0 <= k < order.len() ==> #[trigger] order@[k] < i,
            forall|k: int|
                0 <= k < order.len() ==> #[trigger] keys@[k] == selector_specificity(
                    sels[order@[k] as int],
                ),
            forall|x: usize|
                (#[trigger] order@.contains(x)) <==> (x < i && selector_matches(
                    sels[x as int],
                    element@,
                    cls,
                    idv,
                    state,
                )),
            forall|a: int, b: int|
                0 <= a < b < order.len() ==> applied_before(sels, #[trigger] order@[a], #[trigger] order@[b]),
        decreases selectors.len() - i,
    {
        assert(sels[i as int] == selectors@[i as int]@);
        if selectors[i].matches(element, classes, id, state) {
            let key = selectors[i].specificity();
            let mut p = order.len();
            while p > 0 && keys[p - 1] > key
                invariant
                    p <= order.len(),
                    keys.len() == order.len(),
                    forall|k: int| p <= k < order.len() ==> #[trigger] keys@[k] > key,
                decreases p,
            {
                p -= 1;
            }
            let ghost old_order = order@;
            let ghost old_keys = keys@;
            order.insert(p, i);
            keys.insert(p, key);
            proof {
                assert forall|k: int| 0 <= k < order.len() implies #[trigger] order@[k] < i + 1 by {
                    if k < p {
                        assert(order@[k] == old_order[k]);
                    } else if k > p {
                        assert(order@[k] == old_order[k - 1]);
                    }
                }
                assert forall|k: int|
                    0 <= k < order.len() implies #[trigger] keys@[k] == selector_specificity(
                    sels[order@[k] as int],
                ) by {
                    if k < p {
                        assert(order@[k] == old_order[k] && keys@[k] == old_keys[k]);
                    } else if k > p {
                        assert(order@[k] == old_order[k - 1] && keys@[k] == old_keys[k - 1]);
                    }
                }
                assert forall|x: usize|
                    (#[trigger] order@.contains(x)) <==> (x < i + 1 && selector_matches(
                        sels[x as int],
                        element@,
                        cls,
                        idv,
                        state,
                    )) by {
                    if order@.contains(x) {
                        let k = choose|k: int| 0 <= k < order@.len() && order@[k] == x;
                        if k < p {
                            assert(old_order[k] == x);
                            assert(old_order.contains(x));
                        } else if k > p {
                            assert(old_order[k - 1] == x);
                            assert(old_order.contains(x));
                        }
                    }
                    if x < i + 1 && selector_matches(sels[x as int], element@, cls, idv, state) {
                        if x == i {
                            assert(order@[p as int] == x);
                        } else {
                            assert(old_order.contains(x));
                            let k = choose|k: int| 0 <= k < old_order.len() && old_order[k] == x;
                            if k < p {
                                assert(order@[k] == x);
                            } else {
                                assert(order@[k + 1] == x);
                            }
                        }
                    }
                }
                assert forall|a: int, b: int|
                    0 <= a < b < order.len() implies applied_before(
                    sels,
                    #[trigger] order@[a],
                    #[trigger] order@[b],
                ) by {
                    if b < p {
                        assert(order@[a] == old_order[a] && order@[b] == old_order[b]);
                    } else if b == p {
                        assert(order@[a] == old_order[a]);
                        assert(keys@[a] == old_keys[a]);
                        assert(old_keys[a] <= key);
                    } else if a > p {
                        assert(order@[a] == old_order[a - 1] && order@[b] == old_order[b - 1]);
                    } else if a == p {
                        assert(order@[b] == old_order[b - 1]);
                        assert(keys@[b] == old_keys[b - 1]);
                    } else {
                        assert(order@[a] == old_order[a] && order@[b] == old_order[b - 1]);
                    }
                }
            }
        } else {
            proof {
                assert forall|x: usize|
                    (#[trigger] order@.contains(x)) <==> (x < i + 1 && selector_matches(
                        sels[x as int],
                        element@,
                        cls,
                        idv,
                        state,
                    )) by {
                    if order@.contains(x) {
                        let k = choose|k: int| 0 <= k < order@.len() && order@[k] == x;
                        assert(order@[k] < i);
                    }
                }
            }
        }
        i += 1;
    }
    order
}

/// The pseudo-class names a selector understands, with the state each requires.
pub open spec fn pseudo_class_names() -> Seq<(Seq<char>, PseudoState)> {
    seq![
        ("hover"@, PseudoState::Hover),
        ("active"@, PseudoState::Active),
        ("pressed"@, PseudoState::Active),
        ("focus"@, PseudoState::Focused),
        ("focused"@, PseudoState::Focused),
        ("disabled"@, PseudoState::Disabled),
    ]
}

/// A selector's pseudo-class names the state the name table gives it (`:hover` hover, `:active`/`:pressed` active, `:focus`/`:focused` focused, `:disabled` disabled), and no other text names a state.
pub proof fn law_pseudo_class_names(t: Seq<char>)
    ensures
        forall|i: int|
            #![trigger pseudo_class_names()[i]]
            0 <= i < pseudo_class_names().len() ==> pseudo_state_named(pseudo_class_names()[i].0) == Some(pseudo_class_names()[i].1),
        pseudo_state_named(t) is Some ==> exists|i: int|
            #![trigger pseudo_class_names()[i]]
            0 <= i < pseudo_class_names().len() && pseudo_class_names()[i].0 == t && Some(pseudo_class_names()[i].1) == pseudo_state_named(t),
{
    reveal_strlit("hover");
    reveal_strlit("active");
    reveal_strlit("pressed");
    reveal_strlit("focus");
    reveal_strlit("focused");
    reveal_strlit("disabled");
    assert("hover"@.len() != "active"@.len());
    assert("hover"@.len() != "pressed"@.len());
    assert("hover"@[0] != "focus"@[0]);
    assert("hover"@.len() != "focused"@.len());
    assert("hover"@.len() != "disabled"@.len());
    assert("active"@.len() != "pressed"@.len());
    assert("active"@.len() != "focus"@.len());
    assert("active"@.len() != "focused"@.len());
    assert("active"@.len() != "disabled"@.len());
    assert("pressed"@.len() != "focus"@.len());
    assert("pressed"@[0] != "focused"@[0]);
    assert("pressed"@.len() != "disabled"@.len());
    assert("focus"@.len() != "focused"@.len());
    assert("focus"@.len() != "disabled"@.len());
    assert("focused"@.len() != "disabled"@.len());
    let tbl = pseudo_class_names();
    assert(tbl.len() == 6);
    assert forall|i: int| 0 <= i < tbl.len() implies #[trigger] pseudo_state_named(tbl[i].0) == Some(tbl[i].1) by {
        if i == 0 {
            assert(tbl[0] == ("hover"@, PseudoState::Hover));
            assert(pseudo_state_named("hover"@) == Some(PseudoState::Hover));
        } else if i == 1 {
            assert(tbl[1] == ("active"@, PseudoState::Active));
            assert(pseudo_state_named("active"@) == Some(PseudoState::Active));
        } else if i == 2 {
            assert(tbl[2] == ("pressed"@, PseudoState::Active));
            assert(pseudo_state_named("pressed"@) == Some(PseudoState::Active));
        } else if i == 3 {
            assert(tbl[3] == ("focus"@, PseudoState::Focused));
            assert(pseudo_state_named("focus"@) == Some(PseudoState::Focused));
        } else if i == 4 {
            assert(tbl[4] == ("focused"@, PseudoState::Focused));
            assert(pseudo_state_named("focused"@) == Some(PseudoState::Focused));
        } else if i == 5 {
            assert(tbl[5] == ("disabled"@, PseudoState::Disabled));
            assert(pseudo_state_named("disabled"@) == Some(PseudoState::Disabled));
        }
    }
    if t == "hover"@ {
        assert(tbl[0] == ("hover"@, PseudoState::Hover));
    } else if t == "active"@ {
        assert(tbl[1] == ("active"@, PseudoState::Active));
    } else if t == "pressed"@ {
        assert(tbl[2] == ("pressed"@, PseudoState::Active));
    } else if t == "focus"@ {
        assert(tbl[3] == ("focus"@, PseudoState::Focused));
    } else if t == "focused"@ {
        assert(tbl[4] == ("focused"@, PseudoState::Focused));
    } else if t == "disabled"@ {
        assert(tbl[5] == ("disabled"@, PseudoState::Disabled));
    }
}

/// Specificity ranks an id above a class, a state and an element type
/// together; a class or a state above an element type; a class and a state
/// alike; and it grows with every part a selector adds.
pub proof fn law_specificity_ranks(a: SelectorView, b: SelectorView)
    ensures
        a.id is Some && b.id is None ==> selector_specificity(a) > selector_specificity(b),
        (a.id is Some <==> b.id is Some) && (a.class is Some || a.pseudo_state is Some)
            && b.class is None && b.pseudo_state is None ==> selector_specificity(a)
            > selector_specificity(b),
        (a.id is Some <==> b.id is Some) && (a.element is Some <==> b.element is Some) && (
        a.class is Some && a.pseudo_state is None) && (b.class is None && b.pseudo_state is Some)
            ==> selector_specificity(a) == selector_specificity(b),
        (b.id is Some ==> a.id is Some) && (b.class is Some ==> a.class is Some) && (
        b.pseudo_state is Some ==> a.pseudo_state is Some) && (b.element is Some
            ==> a.element is Some) ==> selector_specificity(a) >= selector_specificity(b),
        (b.id is Some ==> a.id is Some) && (b.class is Some ==> a.class is Some) && (
        b.pseudo_state is Some ==> a.pseudo_state is Some) && (b.element is Some
            ==> a.element is Some) && ((a.id is Some && b.id is None) || (a.class is Some
            && b.class is None) || (a.pseudo_state is Some && b.pseudo_state is None) || (
        a.element is Some && b.element is None)) ==> selector_specificity(a)
            > selector_specificity(b),
        a.id is None && a.class is None && a.pseudo_state is None && a.element is None
            ==> selector_specificity(a) == 0,
{
}

/// A selector matches an element when each part it has agrees with the
/// element: a selector with no parts matches every element, a part that
/// disagrees rules the element out, and dropping a part never loses a match.
pub proof fn law_selector_matching(
    sel: SelectorView,
    element: Seq<char>,
    classes: Seq<Seq<char>>,
    id: Option<Seq<char>>,
    state: Option<PseudoState>,
)
    ensures
        sel.element is None && sel.class is None && sel.id is None && sel.pseudo_state is None
            ==> selector_matches(sel, element, classes, id, state),
        sel.element matches Some(e) && e != element && e != "*"@ ==> !selector_matches(
            sel,
            element,
            classes,
            id,
            state,
        ),
        sel.class matches Some(c) && !classes.contains(c) ==> !selector_matches(
            sel,
            element,
            classes,
            id,
            state,
        ),
        sel.id matches Some(i) && id != Some(i) ==> !selector_matches(sel, element, classes, id, state),
        sel.pseudo_state matches Some(s) && state != Some(s) ==> !selector_matches(
            sel,
            element,
            classes,
            id,
            state,
        ),
        selector_matches(sel, element, classes, id, state) ==> {
            &&& selector_matches(SelectorView { element: None, ..sel }, element, classes, id, state)
            &&& selector_matches(SelectorView { class: None, ..sel }, element, classes, id, state)
            &&& selector_matches(SelectorView { id: None, ..sel }, element, classes, id, state)
            &&& selector_matches(SelectorView { pseudo_state: None, ..sel }, element, classes, id, state)
        },
        (sel.element == Some("*"@) || sel.element == Some(element)) && (sel.class matches Some(c)
            ==> classes.contains(c)) && (sel.id is Some ==> sel.id == id) && (sel.pseudo_state is Some
            ==> sel.pseudo_state == state) ==> selector_matches(sel, element, classes, id, state),
{
}

proof fn lemma_encode_len_bound(s: Seq<char>)
    ensures
        encode_utf8(s).len() <= 4 * s.len(),
    decreases s.len(),
{
    if s.len() > 0 {
        lemma_encode_len_bound(s.drop_first());
    }
}

/// No character of `s` is blank or one of the selector separators `:`, `#`
/// and `.`.
pub open spec fn plain_selector_part(s: Seq<char>) -> bool {
    forall|i: int|
        0 <= i < s.len() ==> !is_unicode_whitespace(#[trigger] s[i]) && s[i] != ':' && s[i] != '#'
            && s[i] != '.'
}

proof fn lemma_trim_without_blanks(s: Seq<char>)
    requires
        forall|i: int| 0 <= i < s.len() ==> !is_unicode_whitespace(#[trigger] s[i]),
    ensures
        trim_chars(s) == s,
{
    if s.len() > 0 {
        assert(!is_unicode_whitespace(s[0]));
        assert(s.last() == s[s.len() - 1]);
    }
}

proof fn lemma_split_plain(a: Seq<char>, c: char, b: Seq<char>)
    requires
        (c as u32) < 128,
        forall|j: int| 0 <= j < a.len() ==> #[trigger] a[j] != c,
        4 * (a.len() + 1 + b.len()) <= usize::MAX,
    ensures
        split_at_first_byte(a + seq![c] + b, c as u8) == Some((a, b)),
{
    let s = a + seq![c] + b;
    lemma_encode_len_bound(s);
    lemma_split_at_ascii(s, c);
    assert forall|j: int| 0 <= j < a.len() implies #[trigger] s[j] != c by {
        assert(s[j] == a[j]);
    }
    assert(s[a.len() as int] == c);
    lemma_first_char_index(s, c, a.len() as int);
    assert(s.take(a.len() as int) =~= a);
    assert(s.skip(a.len() as int + 1) =~= b);
}

/// The parts of a selector are read off at their separators: in
/// `Element.class#id:state`, the text before `.` is the element type, the
/// text between `.` and `#` the class, the text between `#` and `:` the id,
/// and the text after `:` names the state; parts that are left out are
/// absent.
pub proof fn law_selector_parts(e: Seq<char>, c: Seq<char>, i: Seq<char>, p: Seq<char>)
    requires
        plain_selector_part(e),
        plain_selector_part(c),
        plain_selector_part(i),
        plain_selector_part(p),
        e.len() > 0,
        4 * (e.len() + c.len() + i.len() + p.len() + 3) <= usize::MAX,
    ensures
        parse_selector_spec(e + seq!['.'] + c + seq!['#'] + i + seq![':'] + p) == (SelectorView {
            element: Some(e),
            class: Some(c),
            id: Some(i),
            pseudo_state: pseudo_state_named(p),
        }),
        parse_selector_spec(e) == (SelectorView {
            element: Some(e),
            class: None,
            id: None,
            pseudo_state: None,
        }),
        parse_selector_spec(e + seq![':'] + p) == (SelectorView {
            element: Some(e),
            class: None,
            id: None,
            pseudo_state: pseudo_state_named(p),
        }),
        parse_selector_spec(seq!['.'] + c) == (SelectorView {
            element: None,
            class: Some(c),
            id: None,
            pseudo_state: None,
        }),
        parse_selector_spec(seq!['#'] + i) == (SelectorView {
            element: None,
            class: None,
            id: Some(i),
            pseudo_state: None,
        }),
{
    lemma_trim_without_blanks(e);
    lemma_trim_without_blanks(c);
    lemma_trim_without_blanks(i);
    lemma_trim_without_blanks(p);
    let y = e + seq!['.'] + c;
    let x = y + seq!['#'] + i;
    let whole = x + seq![':'] + p;
    assert(e + seq!['.'] + c + seq!['#'] + i + seq![':'] + p =~= whole);
    assert forall|j: int| 0 <= j < y.len() implies !is_unicode_whitespace(#[trigger] y[j]) && y[j]
        != ':' && y[j] != '#' by {
        if j < e.len() {
            assert(y[j] == e[j]);
        } else if j > e.len() {
            assert(y[j] == c[j - e.len() - 1]);
        }
    }
    assert forall|j: int| 0 <= j < x.len() implies !is_unicode_whitespace(#[trigger] x[j]) && x[j]
        != ':' by {
        if j < y.len() {
            assert(x[j] == y[j]);
        } else if j > y.len() {
            assert(x[j] == i[j - y.len() - 1]);
        }
    }
    assert forall|j: int| 0 <= j < whole.len() implies !is_unicode_whitespace(#[trigger] whole[j]) by {
        if j < x.len() {
            assert(whole[j] == x[j]);
        } else if j > x.len() {
            assert(whole[j] == p[j - x.len() - 1]);
        }
    }
    lemma_trim_without_blanks(whole);
    lemma_trim_without_blanks(x);
    lemma_split_plain(x, ':', p);
    lemma_split_plain(y, '#', i);
    assert forall|j: int| 0 <= j < e.len() implies #[trigger] e[j] != '.' by {}
    lemma_split_plain(e, '.', c);
    // the element alone
    lemma_encode_len_bound(e);
    lemma_split_at_ascii(e, ':');
    lemma_split_at_ascii(e, '#');
    lemma_split_at_ascii(e, '.');
    lemma_first_char_index(e, ':', e.len() as int);
    lemma_first_char_index(e, '#', e.len() as int);
    lemma_first_char_index(e, '.', e.len() as int);
    // element and state
    let es = e + seq![':'] + p;
    assert forall|j: int| 0 <= j < es.len() implies !is_unicode_whitespace(#[trigger] es[j]) by {
        if j < e.len() {
            assert(es[j] == e[j]);
        } else if j > e.len() {
            assert(es[j] == p[j - e.len() - 1]);
        }
    }
    lemma_trim_without_blanks(es);
    assert forall|j: int| 0 <= j < e.len() implies #[trigger] e[j] != ':' by {}
    lemma_split_plain(e, ':', p);
    // class alone
    let cl = seq!['.'] + c;
    assert forall|j: int| 0 <= j < cl.len() implies !is_unicode_whitespace(#[trigger] cl[j]) && cl[j]
        != ':' && cl[j] != '#' by {
        if j > 0 {
            assert(cl[j] == c[j - 1]);
        }
    }
    lemma_trim_without_blanks(cl);
    lemma_encode_len_bound(cl);
    lemma_split_at_ascii(cl, ':');
    lemma_split_at_ascii(cl, '#');
    lemma_first_char_index(cl, ':', cl.len() as int);
    lemma_first_char_index(cl, '#', cl.len() as int);
    let empty = Seq::<char>::empty();
    assert(cl =~= empty + seq!['.'] + c);
    lemma_split_plain(empty, '.', c);
    // id alone
    let id = seq!['#'] + i;
    assert forall|j: int| 0 <= j < id.len() implies !is_unicode_whitespace(#[trigger] id[j]) && id[j]
        != ':' by {
        if j > 0 {
            assert(id[j] == i[j - 1]);
        }
    }
    lemma_trim_without_blanks(id);
    lemma_encode_len_bound(id);
    lemma_split_at_ascii(id, ':');
    lemma_first_char_index(id, ':', id.len() as int);
    assert(id =~= empty + seq!['#'] + i);
    lemma_split_plain(empty, '#', i);
    lemma_encode_len_bound(empty);
    lemma_split_at_ascii(empty, '.');
    lemma_first_char_index(empty, '.', 0);
}

/// In a cascade the rule applied last, which wins, is a most specific
/// matching rule, and the latest in the sheet among equally specific ones;
/// every rule applied earlier is no more specific.
pub proof fn law_cascade_winner(
    order: Seq<usize>,
    sels: Seq<SelectorView>,
    element: Seq<char>,
    classes: Seq<Seq<char>>,
    id: Option<Seq<char>>,
    state: Option<PseudoState>,
    i: usize,
)
    requires
        is_cascade(order, sels, element, classes, id, state),
        i < sels.len(),
        selector_matches(sels[i as int], element, classes, id, state),
    ensures
        order.len() > 0,
        selector_specificity(sels[i as int]) <= selector_specificity(sels[order.last() as int]),
        selector_specificity(sels[i as int]) == selector_specificity(sels[order.last() as int]) ==> i
            <= order.last(),
{
    assert(order.contains(i));
    let k = choose|k: int| 0 <= k < order.len() && order[k] == i;
    let last = order.len() - 1;
    assert(order.last() == order[last]);
    if k < last {
        assert(applied_before(sels, order[k], order[last]));
    }
}

} // verus!
