//! The prompt dialog: a floating form of text, single-choice and
//! multi-choice fields, driven by key events and submitted as a response.
//!
//! Keys: `Tab` / `Shift+Tab` move between fields, `Up`/`Down` (or `k`/`j`)
//! move within a choice field, `Space` toggles a checkbox, `Enter` confirms a
//! field and advances, `Ctrl+P` submits and `Esc` cancels.
use vstd::prelude::*;

use crate::keys::{no_modifiers, KeyCode, KeyEvent, KeyModifiers};
use crate::styled::{
    bold_fg_style, fg_style, lines_view, plain_style, span_of, Color, Line, Span, SpanView, Style,
};
use crate::text::{
    byte_len, byte_len_of, char_index, char_index_of_byte, char_utf8_width, chars_to_string,
    is_char_boundary, lemma_byte_len_append, lemma_byte_len_push, lemma_byte_len_take_grows,
    lemma_char_index_unique, line_count, lines_of, utf8_width,
};

verus! {

// ---------------------------------------------------------------------------
// Schema
// ---------------------------------------------------------------------------

/// One input field of a dialog.
pub enum FieldSchema {
    /// Free-form single-line text input.
    Text { id: String, label: String, placeholder: Option<String> },
    /// Pick exactly one of the options.
    SingleChoice { id: String, label: String, options: Vec<String>, default: Option<usize> },
    /// Pick zero or more of the options.
    MultiChoice { id: String, label: String, options: Vec<String>, default: Option<Vec<usize>> },
}

impl FieldSchema {
    pub open spec fn id_spec(&self) -> Seq<char> {
        match self {
            FieldSchema::Text { id, .. } => id@,
            FieldSchema::SingleChoice { id, .. } => id@,
            FieldSchema::MultiChoice { id, .. } => id@,
        }
    }

    pub open spec fn label_spec(&self) -> Seq<char> {
        match self {
            FieldSchema::Text { label, .. } => label@,
            FieldSchema::SingleChoice { label, .. } => label@,
            FieldSchema::MultiChoice { label, .. } => label@,
        }
    }

    /// The options of a choice field (none for a text field).
    pub open spec fn options_spec(&self) -> Seq<String> {
        match self {
            FieldSchema::Text { .. } => Seq::empty(),
            FieldSchema::SingleChoice { options, .. } => options@,
            FieldSchema::MultiChoice { options, .. } => options@,
        }
    }

    pub fn id(&self) -> (r: &str)
        ensures
            r@ == self.id_spec(),
    {
        match self {
            FieldSchema::Text { id, .. } => id.as_str(),
            FieldSchema::SingleChoice { id, .. } => id.as_str(),
            FieldSchema::MultiChoice { id, .. } => id.as_str(),
        }
    }

    pub fn label(&self) -> (r: &str)
        ensures
            r@ == self.label_spec(),
    {
        match self {
            FieldSchema::Text { label, .. } => label.as_str(),
            FieldSchema::SingleChoice { label, .. } => label.as_str(),
            FieldSchema::MultiChoice { label, .. } => label.as_str(),
        }
    }

    fn option_count(&self) -> (r: usize)
        ensures
            r == self.options_spec().len(),
    {
        match self {
            FieldSchema::Text { .. } => 0,
            FieldSchema::SingleChoice { options, .. } => options.len(),
            FieldSchema::MultiChoice { options, .. } => options.len(),
        }
    }

    /// A text field without placeholder.
    pub fn text(id: String, label: String) -> (r: Self)
        ensures
            r == (FieldSchema::Text { id, label, placeholder: None }),
    {
        FieldSchema::Text { id, label, placeholder: None }
    }

    /// A text field that shows `placeholder` while empty and unfocused.
    pub fn text_with_placeholder(id: String, label: String, placeholder: String) -> (r: Self)
        ensures
            r == (FieldSchema::Text { id, label, placeholder: Some(placeholder) }),
    {
        FieldSchema::Text { id, label, placeholder: Some(placeholder) }
    }

    /// A single-choice field, first option preselected.
    pub fn single_choice(id: String, label: String, options: Vec<String>) -> (r: Self)
        ensures
            r == (FieldSchema::SingleChoice { id, label, options, default: None }),
    {
        FieldSchema::SingleChoice { id, label, options, default: None }
    }

    /// A multi-choice field, nothing checked.
    pub fn multi_choice(id: String, label: String, options: Vec<String>) -> (r: Self)
        ensures
            r == (FieldSchema::MultiChoice { id, label, options, default: None }),
    {
        FieldSchema::MultiChoice { id, label, options, default: None }
    }
}

/// A whole dialog: title, optional description and fields in order.
pub struct PromptSchema {
    pub title: String,
    pub description: Option<String>,
    pub fields: Vec<FieldSchema>,
}

impl PromptSchema {
    pub fn new(title: String) -> (r: Self)
        ensures
            r.title == title,
            r.description is None,
            r.fields@.len() == 0,
    {
        PromptSchema { title, description: None, fields: Vec::new() }
    }

    pub fn with_description(self, desc: String) -> (r: Self)
        ensures
            r.title == self.title,
            r.description == Some(desc),
            r.fields@ == self.fields@,
    {
        let mut s = self;
        s.description = Some(desc);
        s
    }

    pub fn with_field(self, field: FieldSchema) -> (r: Self)
        ensures
            r.title == self.title,
            r.description == self.description,
            r.fields@ == self.fields@.push(field),
    {
        let mut s = self;
        s.fields.push(field);
        s
    }
}

// ---------------------------------------------------------------------------
// Responses
// ---------------------------------------------------------------------------

/// The submitted value of one field.
pub enum FieldResponse {
    Text { id: String, value: String },
    SingleChoice { id: String, selected: usize, value: String },
    MultiChoice { id: String, selected: Vec<usize>, values: Vec<String> },
}

/// Abstract value of a [`FieldResponse`].
pub enum FieldResponseView {
    Text { id: Seq<char>, value: Seq<char> },
    SingleChoice { id: Seq<char>, selected: usize, value: Seq<char> },
    MultiChoice { id: Seq<char>, selected: Seq<usize>, values: Seq<Seq<char>> },
}

pub open spec fn strings_view(s: Seq<String>) -> Seq<Seq<char>> {
    Seq::new(s.len(), |i: int| s[i]@)
}

impl View for FieldResponse {
    type V = FieldResponseView;

    open spec fn view(&self) -> FieldResponseView {
        match self {
            FieldResponse::Text { id, value } => FieldResponseView::Text { id: id@, value: value@ },
            FieldResponse::SingleChoice { id, selected, value } => FieldResponseView::SingleChoice {
                id: id@,
                selected: *selected,
                value: value@,
            },
            FieldResponse::MultiChoice { id, selected, values } => FieldResponseView::MultiChoice {
                id: id@,
                selected: selected@,
                values: strings_view(values@),
            },
        }
    }
}

impl FieldResponse {
    pub open spec fn id_spec(&self) -> Seq<char> {
        match self {
            FieldResponse::Text { id, .. } => id@,
            FieldResponse::SingleChoice { id, .. } => id@,
            FieldResponse::MultiChoice { id, .. } => id@,
        }
    }

    fn id_str(&self) -> (r: &String)
        ensures
            r@ == self.id_spec(),
    {
        match self {
            FieldResponse::Text { id, .. } => id,
            FieldResponse::SingleChoice { id, .. } => id,
            FieldResponse::MultiChoice { id, .. } => id,
        }
    }
}

/// The responses of all fields, in field order.
pub struct PromptDialogResponse {
    pub fields: Vec<FieldResponse>,
}

/// `k` is the first position whose response has the id `id`.
pub open spec fn first_with_id(fields: Seq<FieldResponse>, id: Seq<char>, k: int) -> bool {
    &&& 0 <= k < fields.len()
    &&& fields[k].id_spec() == id
    &&& forall|j: int| 0 <= j < k ==> (#[trigger] fields[j]).id_spec() != id
}

impl PromptDialogResponse {
    /// The response of the first field whose id is `id`.
    pub fn get(&self, id: &str) -> (r: Option<&FieldResponse>)
        ensures
            match r {
                None => forall|j: int|
                    0 <= j < self.fields@.len() ==> (#[trigger] self.fields@[j]).id_spec() != id@,
                Some(f) => exists|k: int|
                    first_with_id(self.fields@, id@, k) && #[trigger] self.fields@[k] == *f,
            },
    {
        let wanted = String::from_str(id);
        let mut i: usize = 0;
        while i < self.fields.len()
            invariant
                i <= self.fields@.len(),
                wanted@ == id@,
                forall|j: int| 0 <= j < i ==> (#[trigger] self.fields@[j]).id_spec() != id@,
            decreases self.fields.len() - i,
        {
            let f = &self.fields[i];
            if *f.id_str() == wanted {
                assert(first_with_id(self.fields@, id@, i as int));
                return Some(f);
            }
            i = i + 1;
        }
        None
    }
}

// ---------------------------------------------------------------------------
// Field state
// ---------------------------------------------------------------------------

/// The editable state of one field.  A text field keeps its characters and a
/// cursor that is a byte offset into their UTF-8 text.
pub enum FieldState {
    Text { value: Vec<char>, cursor: usize },
    SingleChoice { selected: usize },
    MultiChoice { checked: Vec<bool>, cursor: usize },
}

/// Abstract value of a [`FieldState`].
pub enum FieldStateView {
    Text { value: Seq<char>, cursor: nat },
    SingleChoice { selected: usize },
    MultiChoice { checked: Seq<bool>, cursor: usize },
}

impl View for FieldState {
    type V = FieldStateView;

    open spec fn view(&self) -> FieldStateView {
        match self {
            FieldState::Text { value, cursor } => FieldStateView::Text {
                value: value@,
                cursor: *cursor as nat,
            },
            FieldState::SingleChoice { selected } => FieldStateView::SingleChoice {
                selected: *selected,
            },
            FieldState::MultiChoice { checked, cursor } => FieldStateView::MultiChoice {
                checked: checked@,
                cursor: *cursor,
            },
        }
    }
}

/// The initial selection of a single-choice field: the default (or the
/// first option), kept within the options.
pub open spec fn initial_selected(default: Option<usize>, n: nat) -> usize {
    let d = match default {
        Some(d) => d,
        None => 0usize,
    };
    if n == 0 {
        0
    } else if d < n {
        d
    } else {
        (n - 1) as usize
    }
}

/// The initial checks of a multi-choice field: the default indices that
/// fall within the options.
pub open spec fn initial_checked(default: Option<Seq<usize>>, n: nat) -> Seq<bool> {
    Seq::new(
        n,
        |i: int|
            match default {
                Some(d) => d.contains(i as usize),
                None => false,
            },
    )
}

/// The state a field starts in.
pub open spec fn initial_state(f: FieldSchema) -> FieldStateView {
    match f {
        FieldSchema::Text { .. } => FieldStateView::Text { value: Seq::empty(), cursor: 0 },
        FieldSchema::SingleChoice { options, default, .. } => FieldStateView::SingleChoice {
            selected: initial_selected(default, options@.len()),
        },
        FieldSchema::MultiChoice { options, default, .. } => FieldStateView::MultiChoice {
            checked: initial_checked(
                match default {
                    Some(d) => Some(d@),
                    None => None,
                },
                options@.len(),
            ),
            cursor: 0,
        },
    }
}

/// A state fits its field: same kind, selection and cursor within the options.
pub open spec fn state_fits(f: FieldSchema, s: FieldStateView) -> bool {
    match f {
        FieldSchema::Text { .. } => s matches FieldStateView::Text { value, cursor }
            && is_char_boundary(value, cursor as int) && byte_len(value) <= usize::MAX,
        FieldSchema::SingleChoice { options, .. } => s matches FieldStateView::SingleChoice {
            selected,
        } && (if options@.len() == 0 {
            selected == 0
        } else {
            selected < options@.len()
        }),
        FieldSchema::MultiChoice { options, .. } => s matches FieldStateView::MultiChoice {
            checked,
            cursor,
        } && checked.len() == options@.len() && (if options@.len() == 0 {
            cursor == 0
        } else {
            cursor < options@.len()
        }),
    }
}

impl FieldState {
    /// The state a field starts in.
    pub fn init(schema: &FieldSchema) -> (r: Self)
        ensures
            r@ == initial_state(*schema),
            state_fits(*schema, r@),
    {
        match schema {
            FieldSchema::Text { .. } => {
                let r = FieldState::Text { value: Vec::new(), cursor: 0 };
                assert(byte_len(Seq::<char>::empty().take(0)) == 0);
                r
            },
            FieldSchema::SingleChoice { default, options, .. } => {
                let d = match default {
                    Some(d) => *d,
                    None => 0,
                };
                let n = options.len();
                let last = if n == 0 {
                    0
                } else {
                    n - 1
                };
                FieldState::SingleChoice {
                    selected: if d < last {
                        d
                    } else {
                        last
                    },
                }
            },
            FieldSchema::MultiChoice { default, options, .. } => {
                let n = options.len();
                let mut checked: Vec<bool> = Vec::new();
                let mut i: usize = 0;
                while i < n
                    invariant
                        i <= n,
                        checked@.len() == i,
                        forall|j: int| 0 <= j < i ==> !(#[trigger] checked@[j]),
                    decreases n - i,
                {
                    checked.push(false);
                    i = i + 1;
                }
                match default {
                    Some(ds) => {
                        let mut k: usize = 0;
                        while k < ds.len()
                            invariant
                                k <= ds@.len(),
                                checked@.len() == n,
                                forall|j: int|
                                    0 <= j < n ==> (#[trigger] checked@[j]) == ds@.take(
                                        k as int,
                                    ).contains(j as usize),
                            decreases ds.len() - k,
                        {
                            let idx = ds[k];
                            if idx < checked.len() {
                                checked.set(idx, true);
                            }
                            proof {
                                let t0 = ds@.take(k as int);
                                let t1 = ds@.take(k + 1);
                                assert(t1 =~= t0.push(idx));
                                assert forall|x: usize| #[trigger] t1.contains(x) == (t0.contains(x)
                                    || x == idx) by {
                                    if t0.contains(x) {
                                        let w = choose|w: int| 0 <= w < t0.len() && t0[w] == x;
                                        assert(t1[w] == x);
                                    }
                                    if x == idx {
                                        assert(t1[k as int] == x);
                                    }
                                    if t1.contains(x) {
                                        let w = choose|w: int| 0 <= w < t1.len() && t1[w] == x;
                                        if w < k {
                                            assert(t0[w] == x);
                                        }
                                    }
                                }
                                assert forall|j: int| 0 <= j < n implies (#[trigger] checked@[j])
                                    == t1.contains(j as usize) by {
                                    assert(t1.contains(j as usize) == (t0.contains(j as usize) || j as usize == idx));
                                }
                            }
                            k = k + 1;
                        }
                        assert(ds@.take(ds@.len() as int) =~= ds@);
                    },
                    None => {},
                }
                let r = FieldState::MultiChoice { checked, cursor: 0 };
                assert(r@->checked =~= initial_checked(
                    match default {
                        Some(d) => Some(d@),
                        None => None,
                    },
                    n as nat,
                ));
                r
            },
        }
    }
}

// ---------------------------------------------------------------------------
// Key handling
// ---------------------------------------------------------------------------

/// Exactly no modifier, or exactly Shift: a key that types its character.
pub open spec fn types_char(m: KeyModifiers) -> bool {
    m == no_modifiers() || m == (KeyModifiers { shift: true, ..no_modifiers() })
}

/// A text field after a key, its cursor a byte offset at character `k`:
/// a typed character goes in at the cursor, which moves past it; backspace
/// removes the character before the cursor and `Delete` the one after it;
/// the arrows move one character, `Home` and `End` to either end.
pub open spec fn text_step(value: Seq<char>, cursor: nat, key: KeyEvent) -> (Seq<char>, nat) {
    let k = char_index(value, cursor as int);
    match key.code {
        KeyCode::Char(c) => if types_char(key.modifiers) {
            let v = value.insert(k, c);
            (v, byte_len(v.take(k + 1)))
        } else {
            (value, cursor)
        },
        KeyCode::Backspace => if cursor > 0 {
            let v = value.remove(k - 1);
            (v, byte_len(v.take(k - 1)))
        } else {
            (value, cursor)
        },
        KeyCode::Delete => if k < value.len() {
            (value.remove(k), cursor)
        } else {
            (value, cursor)
        },
        KeyCode::Left => if cursor > 0 {
            (value, byte_len(value.take(k - 1)))
        } else {
            (value, cursor)
        },
        KeyCode::Right => if k < value.len() {
            (value, byte_len(value.take(k + 1)))
        } else {
            (value, cursor)
        },
        KeyCode::Home => (value, 0nat),
        KeyCode::End => (value, byte_len(value)),
        _ => (value, cursor),
    }
}

/// Inserting a character: what comes before it stays, and it adds its bytes.
proof fn lemma_insert_bytes(s: Seq<char>, k: int, c: char)
    requires
        0 <= k <= s.len(),
    ensures
        s.insert(k, c).take(k + 1) == s.take(k).push(c),
        byte_len(s.insert(k, c)) == byte_len(s) + utf8_width(c),
{
    assert(s.insert(k, c).take(k + 1) =~= s.take(k).push(c));
    assert(s.insert(k, c) =~= s.take(k).push(c) + s.skip(k));
    assert(s =~= s.take(k) + s.skip(k));
    lemma_byte_len_append(s.take(k).push(c), s.skip(k));
    lemma_byte_len_append(s.take(k), s.skip(k));
    lemma_byte_len_push(s.take(k), c);
}

/// Removing a character: what comes before it stays, and it takes its bytes.
proof fn lemma_remove_bytes(s: Seq<char>, k: int)
    requires
        0 <= k < s.len(),
    ensures
        s.remove(k).take(k) == s.take(k),
        byte_len(s.take(k + 1)) == byte_len(s.take(k)) + utf8_width(s[k]),
        byte_len(s.remove(k)) + utf8_width(s[k]) == byte_len(s),
{
    assert(s.remove(k).take(k) =~= s.take(k));
    assert(s.take(k + 1) =~= s.take(k).push(s[k]));
    lemma_byte_len_push(s.take(k), s[k]);
    assert(s.remove(k) =~= s.take(k) + s.skip(k + 1));
    assert(s =~= s.take(k + 1) + s.skip(k + 1));
    lemma_byte_len_append(s.take(k), s.skip(k + 1));
    lemma_byte_len_append(s.take(k + 1), s.skip(k + 1));
}

/// A key keeps a text field's cursor between two characters and its text
/// within a machine word (given room for a typed character).
proof fn lemma_text_step_fits(value: Seq<char>, cursor: nat, key: KeyEvent)
    requires
        is_char_boundary(value, cursor as int),
        byte_len(value) <= usize::MAX,
        key.code is Char && types_char(key.modifiers) ==> byte_len(value) + 4 <= usize::MAX,
    ensures
        is_char_boundary(text_step(value, cursor, key).0, text_step(value, cursor, key).1 as int),
        byte_len(text_step(value, cursor, key).0) <= usize::MAX,
{
    let k = char_index(value, cursor as int);
    lemma_byte_len_take_grows(value, k, value.len() as int);
    lemma_char_index_unique(value, k);
    lemma_char_index_unique(value, 0);
    lemma_char_index_unique(value, value.len() as int);
    assert(value.take(value.len() as int) =~= value);
    match key.code {
        KeyCode::Char(c) => if types_char(key.modifiers) {
            lemma_insert_bytes(value, k, c);
            lemma_char_index_unique(value.insert(k, c), k + 1);
        },
        KeyCode::Backspace => if cursor > 0 {
            if k == 0 {
                assert(value.take(0) =~= Seq::<char>::empty());
            }
            lemma_remove_bytes(value, k - 1);
            lemma_char_index_unique(value.remove(k - 1), k - 1);
        },
        KeyCode::Delete => if k < value.len() {
            lemma_remove_bytes(value, k);
            lemma_char_index_unique(value.remove(k), k);
        },
        KeyCode::Left => if cursor > 0 {
            if k == 0 {
                assert(value.take(0) =~= Seq::<char>::empty());
            }
            lemma_char_index_unique(value, k - 1);
        },
        KeyCode::Right => if k < value.len() {
            lemma_char_index_unique(value, k + 1);
        },
        _ => {},
    }
}

/// Up / `k` on a choice list.
pub open spec fn is_up(code: KeyCode) -> bool {
    code == KeyCode::Up || code == KeyCode::Char('k')
}

/// Down / `j` on a choice list.
pub open spec fn is_down(code: KeyCode) -> bool {
    code == KeyCode::Down || code == KeyCode::Char('j')
}

/// A position in a list of `n` options after a key.
pub open spec fn move_step(pos: usize, n: nat, code: KeyCode) -> usize {
    if is_up(code) && pos > 0 {
        (pos - 1) as usize
    } else if is_down(code) && pos + 1 < n {
        (pos + 1) as usize
    } else {
        pos
    }
}

/// A field's state after a key that is not global to the dialog.
pub open spec fn field_step(s: FieldStateView, n_options: nat, key: KeyEvent) -> FieldStateView {
    match s {
        FieldStateView::Text { value, cursor } => {
            let (v, c) = text_step(value, cursor, key);
            FieldStateView::Text { value: v, cursor: c }
        },
        FieldStateView::SingleChoice { selected } => if n_options == 0 {
            s
        } else {
            FieldStateView::SingleChoice { selected: move_step(selected, n_options, key.code) }
        },
        FieldStateView::MultiChoice { checked, cursor } => if n_options == 0 {
            s
        } else if key.code == KeyCode::Char(' ') {
            FieldStateView::MultiChoice {
                checked: if cursor < checked.len() {
                    checked.update(cursor as int, !checked[cursor as int])
                } else {
                    checked
                },
                cursor,
            }
        } else {
            FieldStateView::MultiChoice { checked, cursor: move_step(cursor, n_options, key.code) }
        },
    }
}

/// `Enter` confirms the field and moves on (a choice field without options
/// ignores every key).
pub open spec fn field_advances(s: FieldStateView, n_options: nat, key: KeyEvent) -> bool {
    key.code == KeyCode::Enter && (s is Text || n_options > 0)
}

/// The value a response reports for a single choice: the selected option,
/// or empty when there is none.
pub open spec fn option_at(options: Seq<String>, i: usize) -> Seq<char> {
    if i < options.len() {
        options[i as int]@
    } else {
        Seq::empty()
    }
}

/// The indices of the checked boxes, in order.
pub open spec fn checked_indices(c: Seq<bool>) -> Seq<usize>
    decreases c.len(),
{
    if c.len() == 0 {
        Seq::empty()
    } else if c.last() {
        checked_indices(c.drop_last()).push((c.len() - 1) as usize)
    } else {
        checked_indices(c.drop_last())
    }
}

/// What a field answers when the dialog is submitted.
pub open spec fn response_of(f: FieldSchema, s: FieldStateView) -> FieldResponseView {
    match s {
        FieldStateView::Text { value, .. } => FieldResponseView::Text { id: f.id_spec(), value },
        FieldStateView::SingleChoice { selected } => FieldResponseView::SingleChoice {
            id: f.id_spec(),
            selected,
            value: option_at(f.options_spec(), selected),
        },
        FieldStateView::MultiChoice { checked, .. } => {
            let sel = checked_indices(checked);
            FieldResponseView::MultiChoice {
                id: f.id_spec(),
                selected: sel,
                values: Seq::new(sel.len(), |j: int| option_at(f.options_spec(), sel[j])),
            }
        },
    }
}

proof fn lemma_checked_indices_bound(c: Seq<bool>)
    ensures
        forall|j: int|
            0 <= j < checked_indices(c).len() ==> (#[trigger] checked_indices(c)[j]) < c.len(),
    decreases c.len(),
{
    if c.len() > 0 {
        let p = c.drop_last();
        lemma_checked_indices_bound(p);
        assert forall|j: int| 0 <= j < checked_indices(c).len() implies (#[trigger] checked_indices(
            c,
        )[j]) < c.len() by {
            if j < checked_indices(p).len() {
                assert(checked_indices(c)[j] == checked_indices(p)[j]);
            }
        }
    }
}

impl FieldState {
    /// The response this state gives for `schema` (the state fits the schema).
    pub fn to_response(&self, schema: &FieldSchema) -> (r: FieldResponse)
        requires
            state_fits(*schema, self@),
        ensures
            r@ == response_of(*schema, self@),
    {
        match (self, schema) {
            (FieldState::Text { value, .. }, FieldSchema::Text { id, .. }) => {
                FieldResponse::Text { id: id.clone(), value: chars_to_string(value) }
            },
            (FieldState::SingleChoice { selected }, FieldSchema::SingleChoice { id, options, .. }) => {
                let value = if *selected < options.len() {
                    options[*selected].clone()
                } else {
                    String::new()
                };
                FieldResponse::SingleChoice { id: id.clone(), selected: *selected, value }
            },
            (
                FieldState::MultiChoice { checked, .. },
                FieldSchema::MultiChoice { id, options, .. },
            ) => {
                let mut selected: Vec<usize> = Vec::new();
                let mut values: Vec<String> = Vec::new();
                let mut i: usize = 0;
                while i < checked.len()
                    invariant
                        i <= checked@.len(),
                        checked@.len() == options@.len(),
                        selected@ == checked_indices(checked@.take(i as int)),
                        values@.len() == selected@.len(),
                        forall|j: int|
                            0 <= j < values@.len() ==> (#[trigger] values@[j])@ == options@[selected@[j] as int]@,
                    decreases checked.len() - i,
                {
                    assert(checked@.take(i + 1).drop_last() =~= checked@.take(i as int));
                    if checked[i] {
                        selected.push(i);
                        values.push(options[i].clone());
                    }
                    i = i + 1;
                }
                assert(checked@.take(checked@.len() as int) =~= checked@);
                proof {
                    lemma_checked_indices_bound(checked@);
                }
                let r = FieldResponse::MultiChoice { id: id.clone(), selected, values };
                assert(strings_view(values@) =~= Seq::new(
                    selected@.len(),
                    |j: int| option_at(options@, selected@[j]),
                ));
                r
            },
            _ => {
                // `state_fits` rules out a state of another kind than its field.
                assert(false);
                FieldResponse::Text { id: String::new(), value: String::new() }
            },
        }
    }
}

/// What the dialog reports when a key ends it.
pub enum PromptDialogEvent {
    /// `Ctrl+P`: the responses of all fields.
    Submitted(PromptDialogResponse),
    /// `Esc`: nothing is answered.
    Cancelled,
}

/// The dialog: its schema, the state of each field and the field that has focus.
pub struct PromptDialogController {
    pub schema: PromptSchema,
    states: Vec<FieldState>,
    active_field: usize,
}

/// Abstract state of a [`PromptDialogController`].
pub struct DialogView {
    pub fields: Seq<FieldSchema>,
    pub states: Seq<FieldStateView>,
    pub active: usize,
}

pub open spec fn states_view(s: Seq<FieldState>) -> Seq<FieldStateView> {
    Seq::new(s.len(), |i: int| s[i]@)
}

impl View for PromptDialogController {
    type V = DialogView;

    closed spec fn view(&self) -> DialogView {
        DialogView {
            fields: self.schema.fields@,
            states: states_view(self.states@),
            active: self.active_field,
        }
    }
}

impl DialogView {
    /// Number of fields focus cycles through (at least one).
    pub open spec fn cycle(self) -> nat {
        if self.fields.len() == 0 {
            1
        } else {
            self.fields.len()
        }
    }

    /// A character typed into the focused text field leaves its text within
    /// a machine word.
    pub open spec fn has_room(self, key: KeyEvent) -> bool {
        self.active < self.states.len() ==> match self.states[self.active as int] {
            FieldStateView::Text { value, .. } => (key.code is Char && types_char(key.modifiers))
                ==> byte_len(value) + 4 <= usize::MAX,
            _ => true,
        }
    }

    pub open spec fn wf(self) -> bool {
        &&& self.states.len() == self.fields.len()
        &&& forall|i: int|
            0 <= i < self.fields.len() ==> state_fits(
                #[trigger] self.fields[i],
                self.states[i],
            )
        &&& self.active < self.cycle()
    }

    /// The responses of all fields, in order.
    pub open spec fn responses(self) -> Seq<FieldResponseView> {
        Seq::new(self.fields.len(), |i: int| response_of(self.fields[i], self.states[i]))
    }

    /// The dialog after a key that `Esc`, `Ctrl+P`, `Tab` and `Shift+Tab`
    /// leave to the focused field.
    pub open spec fn field_key(self, key: KeyEvent) -> DialogView {
        let a = self.active as int;
        let s = self.states[a];
        let n = self.fields[a].options_spec().len();
        DialogView {
            states: self.states.update(a, field_step(s, n, key)),
            active: if field_advances(s, n, key) {
                ((self.active + 1) % (self.cycle() as int)) as usize
            } else {
                self.active
            },
            ..self
        }
    }

    /// Focus on the next field (wrapping).
    pub open spec fn next_field(self) -> DialogView {
        DialogView { active: ((self.active + 1) % (self.cycle() as int)) as usize, ..self }
    }

    /// Focus on the previous field (wrapping).
    pub open spec fn prev_field(self) -> DialogView {
        DialogView { active: ((self.active + self.cycle() - 1) % (self.cycle() as int)) as usize, ..self }
    }
}

/// The key submits the dialog: `p` with exactly Control.
pub open spec fn is_submit_key(k: KeyEvent) -> bool {
    k.code == KeyCode::Char('p') && k.modifiers == (KeyModifiers { control: true, ..no_modifiers() })
}

/// The key is handled by the dialog itself, not by the focused field.
pub open spec fn is_global_key(k: KeyEvent) -> bool {
    k.code == KeyCode::Esc || is_submit_key(k) || k.code == KeyCode::Tab || k.code
        == KeyCode::BackTab
}

pub open spec fn responses_view(s: Seq<FieldResponse>) -> Seq<FieldResponseView> {
    Seq::new(s.len(), |i: int| s[i]@)
}

impl PromptDialogController {
    /// The schema the dialog was opened with.
    pub closed spec fn schema_spec(&self) -> PromptSchema {
        self.schema
    }

    proof fn lemma_view(&self)
        ensures
            self@.fields == self.schema.fields@,
            self@.states == states_view(self.states@),
            self@.active == self.active_field,
    {
    }

    /// A dialog for `schema`, focus on the first field, every field in its
    /// initial state.
    pub fn new(schema: PromptSchema) -> (r: Self)
        ensures
            r@.wf(),
            r@.fields == schema.fields@,
            r.schema_spec() == schema,
            r@.active == 0,
            r@.states == Seq::new(schema.fields@.len(), |i: int| initial_state(schema.fields@[i])),
    {
        let mut states: Vec<FieldState> = Vec::new();
        let mut i: usize = 0;
        while i < schema.fields.len()
            invariant
                i <= schema.fields@.len(),
                states@.len() == i,
                forall|j: int|
                    0 <= j < i ==> (#[trigger] states@[j])@ == initial_state(schema.fields@[j])
                        && state_fits(schema.fields@[j], states@[j]@),
            decreases schema.fields.len() - i,
        {
            states.push(FieldState::init(&schema.fields[i]));
            i = i + 1;
        }
        let r = PromptDialogController { schema, states, active_field: 0 };
        proof {
            r.lemma_view();
            assert(r@.states =~= Seq::new(
                r.schema.fields@.len(),
                |i: int| initial_state(r.schema.fields@[i]),
            ));
        }
        r
    }

    /// The responses of all fields.
    fn collect(&self) -> (r: PromptDialogResponse)
        requires
            self@.wf(),
        ensures
            responses_view(r.fields@) == self@.responses(),
    {
        proof {
            self.lemma_view();
        }
        let mut fields: Vec<FieldResponse> = Vec::new();
        let mut i: usize = 0;
        while i < self.states.len()
            invariant
                i <= self.states@.len(),
                self@.wf(),
                self@.fields == self.schema.fields@,
                self@.states == states_view(self.states@),
                fields@.len() == i,
                forall|j: int|
                    0 <= j < i ==> (#[trigger] fields@[j])@ == response_of(
                        self.schema.fields@[j],
                        self.states@[j]@,
                    ),
            decreases self.states.len() - i,
        {
            assert(state_fits(self@.fields[i as int], self@.states[i as int]));
            fields.push(self.states[i].to_response(&self.schema.fields[i]));
            i = i + 1;
        }
        let r = PromptDialogResponse { fields };
        assert(responses_view(r.fields@) =~= self@.responses());
        r
    }

    /// Whether the dialog can take `key` (see [`DialogView::has_room`]).
    pub fn has_room_for(&self, key: KeyEvent) -> (r: bool)
        requires
            self@.wf(),
        ensures
            r == self@.has_room(key),
    {
        proof {
            self.lemma_view();
        }
        if self.active_field >= self.states.len() {
            return true;
        }
        proof {
            assert(state_fits(self@.fields[self.active_field as int], self@.states[self.active_field as int]));
        }
        match &self.states[self.active_field] {
            FieldState::Text { value, .. } => {
                if key.modifiers.is_none() || key.modifiers.is_shift() {
                    match key.code {
                        KeyCode::Char(_) => {
                            let n = byte_len_of(value);
                            n <= usize::MAX - 4
                        },
                        _ => true,
                    }
                } else {
                    true
                }
            },
            _ => true,
        }
    }

    /// Handles a key.  `Esc` cancels and `Ctrl+P` submits (both leave the
    /// dialog as it was), `Tab` and `Shift+Tab` move the focus, and every
    /// other key goes to the focused field.
    pub fn handle_key(&mut self, key: KeyEvent) -> (r: Option<PromptDialogEvent>)
        requires
            old(self)@.wf(),
            old(self)@.fields.len() > 0 || is_global_key(key),
            old(self)@.has_room(key),
        ensures
            final(self)@.wf(),
            final(self).schema_spec() == old(self).schema_spec(),
            key.code == KeyCode::Esc ==> (r matches Some(PromptDialogEvent::Cancelled)
                && final(self)@ == old(self)@),
            key.code != KeyCode::Esc && is_submit_key(key) ==> (r matches Some(
                PromptDialogEvent::Submitted(resp),
            ) && responses_view(resp.fields@) == old(self)@.responses()) && final(self)@ == old(
                self,
            )@,
            !(key.code == KeyCode::Esc || is_submit_key(key)) ==> r is None,
            !(key.code == KeyCode::Esc || is_submit_key(key)) && key.code == KeyCode::Tab
                ==> final(self)@ == old(self)@.next_field(),
            !(key.code == KeyCode::Esc || is_submit_key(key)) && key.code == KeyCode::BackTab
                ==> final(self)@ == old(self)@.prev_field(),
            !is_global_key(key) ==> final(self)@ == old(self)@.field_key(key),
    {
        proof {
            self.lemma_view();
        }
        match key.code {
            KeyCode::Esc => {
                return Some(PromptDialogEvent::Cancelled);
            },
            KeyCode::Char('p') if key.modifiers.is_control() => {
                return Some(PromptDialogEvent::Submitted(self.collect()));
            },
            KeyCode::Tab => {
                let n = if self.states.len() == 0 {
                    1
                } else {
                    self.states.len()
                };
                self.active_field = (self.active_field + 1) % n;
            },
            KeyCode::BackTab => {
                let n = if self.states.len() == 0 {
                    1
                } else {
                    self.states.len()
                };
                self.active_field = if self.active_field == 0 {
                    n - 1
                } else {
                    self.active_field - 1
                };
                proof {
                    let c = old(self)@.cycle();
                    let a = old(self)@.active;
                    if a == 0 {
                        assert((a + c - 1) % (c as int) == c - 1) by (nonlinear_arith)
                            requires
                                a == 0,
                                c >= 1,
                        ;
                    } else {
                        assert((a + c - 1) % (c as int) == a - 1) by (nonlinear_arith)
                            requires
                                0 < a < c,
                        ;
                    }
                }
            },
            _ => {
                self.dispatch_field_key(key);
            },
        }
        proof {
            self.lemma_view();
        }
        None
    }

    /// Sends a key to the focused field.
    fn dispatch_field_key(&mut self, key: KeyEvent)
        requires
            old(self)@.wf(),
            old(self)@.fields.len() > 0,
            old(self)@.has_room(key),
        ensures
            final(self)@.wf(),
            final(self).schema == old(self).schema,
            final(self)@ == old(self)@.field_key(key),
    {
        proof {
            self.lemma_view();
        }
        let ghost v = self@;
        let idx = self.active_field;
        let n_fields = self.states.len();
        let n_options = self.schema.fields[idx].option_count();
        let mut st = self.take_state(idx);
        assert(st@ == v.states[idx as int]);
        assert(v.active == idx);
        let advance = match &mut st {
            FieldState::Text { value, cursor } => {
                Self::handle_text_key(key, value, cursor)
            },
            FieldState::SingleChoice { selected } => Self::handle_single_choice_key(
                key,
                selected,
                n_options,
            ),
            FieldState::MultiChoice { checked, cursor } => Self::handle_multi_choice_key(
                key,
                checked,
                cursor,
                n_options,
            ),
        };
        self.states.set(idx, st);
        if advance {
            self.active_field = (idx + 1) % n_fields;
        }
        proof {
            self.lemma_view();
            assert(self@.states =~= v.field_key(key).states);
            assert forall|i: int| 0 <= i < self@.fields.len() implies state_fits(
                #[trigger] self@.fields[i],
                self@.states[i],
            ) by {
                if i != idx {
                    assert(self@.states[i] == v.states[i]);
                }
            }
        }
    }

    /// The state of field `i`, taken out of the dialog (a placeholder stays).
    fn take_state(&mut self, i: usize) -> (r: FieldState)
        requires
            i < old(self).states@.len(),
        ensures
            r == old(self).states@[i as int],
            final(self).states@ == old(self).states@.update(i as int, FieldState::SingleChoice { selected: 0 }),
            final(self).schema == old(self).schema,
            final(self).active_field == old(self).active_field,
    {
        let mut r = FieldState::SingleChoice { selected: 0 };
        self.states.set_and_swap(i, &mut r);
        r
    }

    /// A key on a text field; returns whether the focus moves on.
    fn handle_text_key(key: KeyEvent, value: &mut Vec<char>, cursor: &mut usize) -> (advance: bool)
        requires
            is_char_boundary(old(value)@, *old(cursor) as int),
            byte_len(old(value)@) <= usize::MAX,
            key.code is Char && types_char(key.modifiers) ==> byte_len(old(value)@) + 4
                <= usize::MAX,
        ensures
            (final(value)@, *final(cursor) as nat) == text_step(old(value)@, *old(cursor) as nat, key),
            is_char_boundary(final(value)@, *final(cursor) as int),
            byte_len(final(value)@) <= usize::MAX,
            advance == (key.code == KeyCode::Enter),
    {
        let ghost v0 = value@;
        let k = match char_index_of_byte(value, *cursor) {
            Some(k) => k,
            None => {
                return key.code == KeyCode::Enter;
            },
        };
        assert(byte_len(v0.take(k as int)) == *cursor);
        proof {
            lemma_byte_len_take_grows(v0, k as int, v0.len() as int);
        }
        match key.code {
            KeyCode::Char(c) => {
                if key.modifiers.is_none() || key.modifiers.is_shift() {
                    value.insert(k, c);
                    proof {
                        lemma_insert_bytes(v0, k as int, c);
                        lemma_byte_len_push(v0.take(k as int), c);
                        lemma_char_index_unique(value@, k + 1);
                    }
                    *cursor = *cursor + char_utf8_width(c);
                }
                false
            },
            KeyCode::Backspace => {
                if *cursor > 0 {
                    assert(k > 0) by {
                        if k == 0 {
                            assert(v0.take(0) =~= Seq::<char>::empty());
                        }
                    }
                    let w = char_utf8_width(value[k - 1]);
                    proof {
                        lemma_remove_bytes(v0, k - 1);
                    }
                    value.remove(k - 1);
                    proof {
                        lemma_char_index_unique(value@, k - 1);
                    }
                    *cursor = *cursor - w;
                }
                false
            },
            KeyCode::Delete => {
                if k < value.len() {
                    proof {
                        lemma_remove_bytes(v0, k as int);
                    }
                    value.remove(k);
                    proof {
                        lemma_char_index_unique(value@, k as int);
                    }
                }
                false
            },
            KeyCode::Left => {
                if *cursor > 0 {
                    assert(k > 0) by {
                        if k == 0 {
                            assert(v0.take(0) =~= Seq::<char>::empty());
                        }
                    }
                    let w = char_utf8_width(value[k - 1]);
                    proof {
                        lemma_remove_bytes(v0, k - 1);
                        lemma_char_index_unique(v0, k - 1);
                    }
                    *cursor = *cursor - w;
                }
                false
            },
            KeyCode::Right => {
                if k < value.len() {
                    let w = char_utf8_width(value[k]);
                    proof {
                        lemma_remove_bytes(v0, k as int);
                        lemma_char_index_unique(v0, k + 1);
                        lemma_byte_len_take_grows(v0, k + 1, v0.len() as int);
                    }
                    *cursor = *cursor + w;
                }
                false
            },
            KeyCode::Home => {
                proof {
                    lemma_char_index_unique(v0, 0);
                    assert(v0.take(0) =~= Seq::<char>::empty());
                }
                *cursor = 0;
                false
            },
            KeyCode::End => {
                proof {
                    lemma_char_index_unique(v0, v0.len() as int);
                    assert(v0.take(v0.len() as int) =~= v0);
                }
                *cursor = byte_len_of(value);
                false
            },
            KeyCode::Enter => true,
            _ => false,
        }
    }

    /// A key on a single-choice field; returns whether the focus moves on.
    fn handle_single_choice_key(key: KeyEvent, selected: &mut usize, n_options: usize) -> (advance:
        bool)
        requires
            n_options == 0 ==> *old(selected) == 0,
            n_options > 0 ==> *old(selected) < n_options,
        ensures
            (FieldStateView::SingleChoice { selected: *final(selected) }) == field_step(
                (FieldStateView::SingleChoice { selected: *old(selected) }),
                n_options as nat,
                key,
            ),
            n_options == 0 ==> *final(selected) == 0,
            n_options > 0 ==> *final(selected) < n_options,
            advance == (key.code == KeyCode::Enter && n_options > 0),
    {
        if n_options == 0 {
            return false;
        }
        match key.code {
            KeyCode::Up | KeyCode::Char('k') => {
                if *selected > 0 {
                    *selected = *selected - 1;
                }
                false
            },
            KeyCode::Down | KeyCode::Char('j') => {
                if *selected + 1 < n_options {
                    *selected = *selected + 1;
                }
                false
            },
            KeyCode::Enter => true,
            _ => false,
        }
    }

    /// A key on a multi-choice field; returns whether the focus moves on.
    fn handle_multi_choice_key(
        key: KeyEvent,
        checked: &mut Vec<bool>,
        cursor: &mut usize,
        n_options: usize,
    ) -> (advance: bool)
        requires
            old(checked)@.len() == n_options,
            n_options == 0 ==> *old(cursor) == 0,
            n_options > 0 ==> *old(cursor) < n_options,
        ensures
            (FieldStateView::MultiChoice { checked: final(checked)@, cursor: *final(cursor) })
                == field_step(
                (FieldStateView::MultiChoice { checked: old(checked)@, cursor: *old(cursor) }),
                n_options as nat,
                key,
            ),
            final(checked)@.len() == n_options,
            n_options == 0 ==> *final(cursor) == 0,
            n_options > 0 ==> *final(cursor) < n_options,
            advance == (key.code == KeyCode::Enter && n_options > 0),
    {
        if n_options == 0 {
            return false;
        }
        match key.code {
            KeyCode::Up | KeyCode::Char('k') => {
                if *cursor > 0 {
                    *cursor = *cursor - 1;
                }
                false
            },
            KeyCode::Down | KeyCode::Char('j') => {
                if *cursor + 1 < n_options {
                    *cursor = *cursor + 1;
                }
                false
            },
            KeyCode::Char(' ') => {
                let c = *cursor;
                if c < checked.len() {
                    let b = checked[c];
                    checked.set(c, !b);
                }
                false
            },
            KeyCode::Enter => true,
            _ => false,
        }
    }

    /// The state of field `i`.
    pub fn state(&self, i: usize) -> (r: &FieldState)
        requires
            i < self@.states.len(),
        ensures
            r@ == self@.states[i as int],
    {
        proof {
            self.lemma_view();
        }
        &self.states[i]
    }

    /// How many fields the dialog has.
    pub fn field_count(&self) -> (r: usize)
        ensures
            r == self@.fields.len(),
    {
        self.schema.fields.len()
    }

    /// The field that has focus.
    pub fn active_field(&self) -> (r: usize)
        ensures
            r == self@.active,
    {
        self.active_field
    }
}


// ---------------------------------------------------------------------------
// Rendering model
// ---------------------------------------------------------------------------

/// A rectangle of terminal cells.
#[derive(Debug, Clone, Copy, PartialEq, Eq, Structural)]
pub struct Rect {
    pub x: u16,
    pub y: u16,
    pub width: u16,
    pub height: u16,
}

/// Rows a field occupies: its label, its widget (a bordered input box of
/// three rows, or one row per option) and a spacer.
pub open spec fn field_height(f: FieldSchema) -> int {
    match f {
        FieldSchema::Text { .. } => 5,
        FieldSchema::SingleChoice { options, .. } => 2 + (options@.len() as u16),
        FieldSchema::MultiChoice { options, .. } => 2 + (options@.len() as u16),
    }
}

/// Rows of the description: its lines and a blank row.
pub open spec fn description_height(d: Option<String>) -> int {
    match d {
        Some(t) => (lines_of(t@).len() as u16) + 1,
        None => 0,
    }
}

/// Rows of all fields from the `i`-th on... summed over the first `n` fields.
pub open spec fn fields_height(fs: Seq<FieldSchema>) -> int
    decreases fs.len(),
{
    if fs.len() == 0 {
        0
    } else {
        fields_height(fs.drop_last()) + field_height(fs.last())
    }
}

/// Rows inside the dialog's border: description, fields and the hint line.
pub open spec fn content_height(s: PromptSchema) -> int {
    description_height(s.description) + fields_height(s.fields@) + 1
}

proof fn lemma_fields_height_grows(fs: Seq<FieldSchema>, i: int)
    requires
        0 <= i <= fs.len(),
    ensures
        0 <= fields_height(fs.take(i)) <= fields_height(fs),
    decreases fs.len(),
{
    if fs.len() > 0 {
        if i == fs.len() {
            assert(fs.take(i) =~= fs);
            lemma_fields_height_grows(fs.drop_last(), i - 1);
            assert(fs.drop_last().take(i - 1) =~= fs.drop_last());
        } else {
            lemma_fields_height_grows(fs.drop_last(), i);
            assert(fs.drop_last().take(i) =~= fs.take(i));
        }
    }
}

/// The rows a field occupies.
pub fn field_display_height(schema: &FieldSchema) -> (r: u16)
    requires
        field_height(*schema) <= u16::MAX,
    ensures
        r == field_height(*schema),
{
    match schema {
        FieldSchema::Text { .. } => 5,
        FieldSchema::SingleChoice { options, .. } => 1 + options.len() as u16 + 1,
        FieldSchema::MultiChoice { options, .. } => 1 + options.len() as u16 + 1,
    }
}

/// Where a dialog of `content` rows sits in `area`: `content + 2` rows
/// (the border) at most `area.height - 2`, six tenths of the width but at
/// least 40 and at most `area.width - 4` columns, centred.
pub open spec fn dialog_rect(content: int, area: Rect) -> Rect {
    let avail_h = if area.height >= 2 {
        area.height - 2
    } else {
        0
    };
    let h = if content + 2 < avail_h {
        content + 2
    } else {
        avail_h
    };
    let six = (area.width * 6) / 10;
    let w0 = if six > 40 {
        six
    } else {
        40
    };
    let w = if w0 < area.width - 4 {
        w0
    } else {
        area.width - 4
    };
    Rect {
        x: ((area.width - w) / 2) as u16,
        y: ((area.height - h) / 2) as u16,
        width: w as u16,
        height: h as u16,
    }
}

/// The answer of one field as the renderer draws it.
pub enum FieldView {
    /// A text field: label, and the input box.
    Text { label: Line, input: TextBox },
    /// A choice field: label, and one row per option.
    Choice { label: Line, rows: Vec<Line> },
}

/// How a text field's box is drawn.
pub enum TextBox {
    /// The value with its cursor (a byte offset); the border is highlighted
    /// when the field has focus.
    Input { value: String, cursor: usize, focused: bool, border: Style },
    /// The placeholder, dimmed.
    Placeholder { text: String },
    /// An empty dimmed box.
    Blank,
}

/// Label style: bold cyan with focus, dark grey without.
pub open spec fn label_style(active: bool) -> Style {
    if active {
        bold_fg_style(Color::Cyan)
    } else {
        fg_style(Color::DarkGray)
    }
}

fn label_style_of(active: bool) -> (r: Style)
    ensures
        r == label_style(active),
{
    if active {
        Style::plain().with_fg(Color::Cyan).with_bold()
    } else {
        Style::plain().with_fg(Color::DarkGray)
    }
}

/// Row style of a single-choice option.
pub open spec fn single_row_style(active: bool, selected: bool) -> Style {
    if active && selected {
        bold_fg_style(Color::Cyan)
    } else if selected {
        fg_style(Color::White)
    } else {
        fg_style(Color::DarkGray)
    }
}

/// Row style of a multi-choice option.
pub open spec fn multi_row_style(active: bool, at_cursor: bool, checked: bool) -> Style {
    if at_cursor {
        Style { fg: Some(Color::Black), bg: Some(Color::Cyan), bold: true, ..plain_style() }
    } else if checked {
        fg_style(Color::Green)
    } else if active {
        fg_style(Color::White)
    } else {
        fg_style(Color::DarkGray)
    }
}

/// The rows of a single-choice field: a radio mark and the option.
pub open spec fn single_rows(options: Seq<String>, selected: usize, active: bool) -> Seq<
    Seq<SpanView>,
> {
    Seq::new(
        options.len(),
        |i: int|
            {
                let st = single_row_style(active, i == selected);
                seq![
                    span_of(if i == selected { "  ● "@ } else { "  ○ "@ }, st),
                    span_of(options[i]@, st),
                ]
            },
    )
}

/// Box `i` is checked.
pub open spec fn is_checked(checked: Seq<bool>, i: int) -> bool {
    0 <= i < checked.len() && checked[i]
}

/// The rows of a multi-choice field: a checkbox and the option.
pub open spec fn multi_rows(options: Seq<String>, checked: Seq<bool>, cursor: usize, active: bool) -> Seq<
    Seq<SpanView>,
> {
    Seq::new(
        options.len(),
        |i: int|
            {
                let st = multi_row_style(active, active && i == cursor, is_checked(checked, i));
                seq![
                    span_of(if is_checked(checked, i) { "  [✓] "@ } else { "  [ ] "@ }, st),
                    span_of(options[i]@, st),
                ]
            },
    )
}

fn single_choice_lines(options: &Vec<String>, selected: usize, is_active: bool) -> (r: Vec<Line>)
    ensures
        lines_view(r@) == single_rows(options@, selected, is_active),
{
    let mut out: Vec<Line> = Vec::new();
    let mut i: usize = 0;
    while i < options.len()
        invariant
            i <= options@.len(),
            out@.len() == i,
            forall|j: int|
                0 <= j < i ==> (#[trigger] out@[j])@ == single_rows(options@, selected, is_active)[j],
        decreases options.len() - i,
    {
        let is_selected = i == selected;
        let st = if is_active && is_selected {
            Style::plain().with_fg(Color::Cyan).with_bold()
        } else if is_selected {
            Style::plain().with_fg(Color::White)
        } else {
            Style::plain().with_fg(Color::DarkGray)
        };
        let mark = if is_selected {
            String::from_str("  ● ")
        } else {
            String::from_str("  ○ ")
        };
        let line = Line::pair(Span::styled(mark, st), Span::styled(options[i].clone(), st));
        out.push(line);
        i = i + 1;
    }
    assert(lines_view(out@) =~= single_rows(options@, selected, is_active));
    out
}

fn multi_choice_lines(options: &Vec<String>, checked: &Vec<bool>, cursor: usize, is_active: bool) -> (r:
    Vec<Line>)
    ensures
        lines_view(r@) == multi_rows(options@, checked@, cursor, is_active),
{
    let mut out: Vec<Line> = Vec::new();
    let mut i: usize = 0;
    while i < options.len()
        invariant
            i <= options@.len(),
            out@.len() == i,
            forall|j: int|
                0 <= j < i ==> (#[trigger] out@[j])@ == multi_rows(
                    options@,
                    checked@,
                    cursor,
                    is_active,
                )[j],
        decreases options.len() - i,
    {
        let is_checked = i < checked.len() && checked[i];
        let is_cursor = is_active && i == cursor;
        let st = if is_cursor {
            Style::plain().with_fg(Color::Black).with_bg(Color::Cyan).with_bold()
        } else if is_checked {
            Style::plain().with_fg(Color::Green)
        } else if is_active {
            Style::plain().with_fg(Color::White)
        } else {
            Style::plain().with_fg(Color::DarkGray)
        };
        let mark = if is_checked {
            String::from_str("  [✓] ")
        } else {
            String::from_str("  [ ] ")
        };
        let line = Line::pair(Span::styled(mark, st), Span::styled(options[i].clone(), st));
        out.push(line);
        i = i + 1;
    }
    assert(lines_view(out@) =~= multi_rows(options@, checked@, cursor, is_active));
    out
}

/// The key hints at the bottom of the dialog.
pub open spec fn hint_spans() -> Seq<SpanView> {
    seq![
        span_of("Tab"@, fg_style(Color::Yellow)),
        span_of(" next  "@, plain_style()),
        span_of("↑↓"@, fg_style(Color::Yellow)),
        span_of(" navigate  "@, plain_style()),
        span_of("Space"@, fg_style(Color::Yellow)),
        span_of(" toggle  "@, plain_style()),
        span_of("Ctrl+P"@, fg_style(Color::Yellow)),
        span_of(" submit  "@, plain_style()),
        span_of("Esc"@, fg_style(Color::Yellow)),
        span_of(" cancel"@, plain_style()),
    ]
}

/// The hint line: each key in yellow followed by what it does.
pub fn hint_line() -> (r: Line)
    ensures
        r@ == hint_spans(),
{
    let key = Style::plain().with_fg(Color::Yellow);
    let raw = Style::plain();
    let mut v: Vec<Span> = Vec::new();
    v.push(Span::styled(String::from_str("Tab"), key));
    v.push(Span::styled(String::from_str(" next  "), raw));
    v.push(Span::styled(String::from_str("↑↓"), key));
    v.push(Span::styled(String::from_str(" navigate  "), raw));
    v.push(Span::styled(String::from_str("Space"), key));
    v.push(Span::styled(String::from_str(" toggle  "), raw));
    v.push(Span::styled(String::from_str("Ctrl+P"), key));
    v.push(Span::styled(String::from_str(" submit  "), raw));
    v.push(Span::styled(String::from_str("Esc"), key));
    v.push(Span::styled(String::from_str(" cancel"), raw));
    let r = Line { spans: v };
    assert(r@ =~= hint_spans());
    r
}

/// The box of a text field: the input while focused or filled, else the
/// placeholder if there is one, else an empty box.
pub open spec fn text_box_is(b: TextBox, placeholder: Option<String>, value: Seq<char>, cursor: nat, active: bool) -> bool {
    if active || value.len() > 0 {
        b matches TextBox::Input { value: v, cursor: c, focused, border } && v@ == value && c
            == cursor && focused == active && border == fg_style(
            if active {
                Color::Cyan
            } else {
                Color::DarkGray
            },
        )
    } else {
        match placeholder {
            Some(p) => b matches TextBox::Placeholder { text } && text@ == p@,
            None => b is Blank,
        }
    }
}

impl PromptDialogController {
    /// Rows the dialog needs inside its border.
    pub fn total_content_height(&self) -> (r: u16)
        requires
            content_height(self.schema_spec()) <= u16::MAX,
        ensures
            r == content_height(self.schema_spec()),
    {
        proof {
            lemma_fields_height_grows(self.schema.fields@, self.schema.fields@.len() as int);
            assert(self.schema.fields@.take(self.schema.fields@.len() as int) =~= self.schema.fields@);
        }
        let desc_h: u16 = match &self.schema.description {
            Some(d) => line_count(d.as_str()) as u16 + 1,
            None => 0,
        };
        let mut fields_h: u16 = 0;
        let mut i: usize = 0;
        proof {
            lemma_fields_height_grows(self.schema.fields@, self.schema.fields@.len() as int);
        }
        while i < self.schema.fields.len()
            invariant
                i <= self.schema.fields@.len(),
                fields_h == fields_height(self.schema.fields@.take(i as int)),
                description_height(self.schema.description) + fields_height(self.schema.fields@)
                    + 1 <= u16::MAX,
                desc_h == description_height(self.schema.description),
            decreases self.schema.fields.len() - i,
        {
            proof {
                lemma_fields_height_grows(self.schema.fields@, i + 1);
                assert(self.schema.fields@.take(i + 1).drop_last() =~= self.schema.fields@.take(
                    i as int,
                ));
            }
            fields_h = fields_h + field_display_height(&self.schema.fields[i]);
            i = i + 1;
        }
        assert(self.schema.fields@.take(i as int) =~= self.schema.fields@);
        desc_h + fields_h + 1
    }

    /// The dialog's rectangle, centred in `area`.
    pub fn compute_dialog_rect(&self, area: Rect) -> (r: Rect)
        requires
            content_height(self.schema_spec()) + 2 <= u16::MAX,
            4 <= area.width,
            area.width * 6 <= u16::MAX,
        ensures
            r == dialog_rect(content_height(self.schema_spec()), area),
    {
        let content = self.total_content_height();
        let avail_h = area.height.saturating_sub(2);
        let dialog_h = if content + 2 < avail_h {
            content + 2
        } else {
            avail_h
        };
        let six = (area.width * 6) / 10;
        let w0 = if six > 40 {
            six
        } else {
            40
        };
        let dialog_w = if w0 < area.width - 4 {
            w0
        } else {
            area.width - 4
        };
        let x = area.width.saturating_sub(dialog_w) / 2;
        let y = area.height.saturating_sub(dialog_h) / 2;
        Rect { x, y, width: dialog_w, height: dialog_h }
    }

    /// The title span: the title padded by a space on each side, bold white.
    pub fn title_span(&self) -> (r: Span)
        ensures
            r@ == span_of(seq![' '] + self.schema_spec().title@ + seq![' '], bold_fg_style(Color::White)),
    {
        let mut t = String::from_str(" ");
        t.append(self.schema.title.as_str());
        t.append(" ");
        proof {
            reveal_strlit(" ");
        }
        assert(t@ =~= seq![' '] + self.schema.title@ + seq![' ']);
        Span::styled(t, Style::plain().with_fg(Color::White).with_bold())
    }

    /// How field `i` is drawn.
    pub fn field_view(&self, i: usize) -> (r: FieldView)
        requires
            self@.wf(),
            i < self@.fields.len(),
        ensures
            ({
                let f = self@.fields[i as int];
                let s = self@.states[i as int];
                let active = i == self@.active;
                match r {
                    FieldView::Text { label, input } => f is Text && label@ == seq![
                        span_of(f.label_spec(), label_style(active)),
                    ] && (s matches FieldStateView::Text { value, cursor } && text_box_is(
                        input,
                        f->placeholder,
                        value,
                        cursor,
                        active,
                    )),
                    FieldView::Choice { label, rows } => !(f is Text) && label@ == seq![
                        span_of(f.label_spec(), label_style(active)),
                    ] && match s {
                        FieldStateView::SingleChoice { selected } => lines_view(rows@)
                            == single_rows(f.options_spec(), selected, active),
                        FieldStateView::MultiChoice { checked, cursor } => lines_view(rows@)
                            == multi_rows(f.options_spec(), checked, cursor, active),
                        FieldStateView::Text { .. } => false,
                    },
                }
            }),
    {
        proof {
            self.lemma_view();
            assert(state_fits(self@.fields[i as int], self@.states[i as int]));
        }
        let is_active = i == self.active_field;
        let schema = &self.schema.fields[i];
        let label = Line::single(Span::styled(String::from_str(schema.label()), label_style_of(is_active)));
        match (schema, &self.states[i]) {
            (FieldSchema::Text { placeholder, .. }, FieldState::Text { value, cursor }) => {
                let input = if is_active || value.len() > 0 {
                    let border = if is_active {
                        Style::plain().with_fg(Color::Cyan)
                    } else {
                        Style::plain().with_fg(Color::DarkGray)
                    };
                    TextBox::Input {
                        value: chars_to_string(value),
                        cursor: *cursor,
                        focused: is_active,
                        border,
                    }
                } else {
                    match placeholder {
                        Some(p) => TextBox::Placeholder { text: p.clone() },
                        None => TextBox::Blank,
                    }
                };
                FieldView::Text { label, input }
            },
            (FieldSchema::SingleChoice { options, .. }, FieldState::SingleChoice { selected }) => {
                FieldView::Choice { label, rows: single_choice_lines(options, *selected, is_active) }
            },
            (
                FieldSchema::MultiChoice { options, .. },
                FieldState::MultiChoice { checked, cursor },
            ) => {
                FieldView::Choice {
                    label,
                    rows: multi_choice_lines(options, checked, *cursor, is_active),
                }
            },
            _ => {
                // `state_fits` rules out a state of another kind than its field.
                assert(false);
                FieldView::Text { label, input: TextBox::Blank }
            },
        }
    }
}



// ---------------------------------------------------------------------------
// Laws
// ---------------------------------------------------------------------------

/// `Tab` followed by `Shift+Tab` gives the focus back to the field that had it.
pub proof fn law_tab_then_back_tab(v: DialogView)
    requires
        v.wf(),
        v.fields.len() <= usize::MAX,
    ensures
        v.next_field().prev_field() == v,
{
    let c = v.cycle() as int;
    let a = v.active as int;
    let n = (a + 1) % c;
    assert(0 <= n < c);
    assert((n + c - 1) % c == a) by (nonlinear_arith)
        requires
            0 <= a < c,
            n == (a + 1) % c,
    ;
    assert(v.next_field().active == n);
    assert(v.next_field().prev_field().active == v.active);
}

/// Typing a character into a text field and pressing backspace leaves the
/// field as it was.
pub proof fn law_type_then_backspace(value: Seq<char>, cursor: nat, typed: KeyEvent, back: KeyEvent)
    requires
        is_char_boundary(value, cursor as int),
        typed.code is Char,
        types_char(typed.modifiers),
        back.code == KeyCode::Backspace,
    ensures
        ({
            let (v1, c1) = text_step(value, cursor, typed);
            text_step(v1, c1, back)
        }) == (value, cursor),
{
    let c = typed.code->Char_0;
    let k = char_index(value, cursor as int);
    let v1 = value.insert(k, c);
    lemma_insert_bytes(value, k, c);
    lemma_byte_len_push(value.take(k), c);
    lemma_char_index_unique(v1, k + 1);
    assert(v1.remove(k) =~= value);
    assert(v1.remove(k).take(k) =~= value.take(k));
    assert(byte_len(v1.take(k + 1)) > 0);
}

/// The editing keys of a text field whose cursor stands before character
/// `k`: a typed character goes in at the cursor and the cursor moves past
/// its bytes; backspace removes the character before the cursor and the
/// cursor moves to where it began; the arrows move over one character;
/// `Home` and `End` go to either end.
pub proof fn law_text_keys_edit_at_cursor(value: Seq<char>, k: int, key: KeyEvent)
    requires
        0 <= k <= value.len(),
    ensures
        ({
            let cursor = byte_len(value.take(k));
            let (v, c) = text_step(value, cursor, key);
            &&& match key.code {
                KeyCode::Char(ch) => types_char(key.modifiers) ==> v == value.take(k) + seq![ch]
                    + value.skip(k) && c == cursor + utf8_width(ch),
                _ => true,
            }
            &&& (key.code == KeyCode::Backspace && k > 0) ==> v == value.take(k - 1) + value.skip(k)
                && c == byte_len(value.take(k - 1))
            &&& (key.code == KeyCode::Backspace && k == 0) ==> v == value && c == 0
            &&& (key.code == KeyCode::Left && k > 0) ==> v == value && c == byte_len(value.take(k - 1))
            &&& (key.code == KeyCode::Right && k < value.len()) ==> v == value && c == byte_len(
                value.take(k + 1),
            )
            &&& key.code == KeyCode::Home ==> v == value && c == 0
            &&& key.code == KeyCode::End ==> v == value && c == byte_len(value)
        }),
{
    lemma_char_index_unique(value, k);
    let cursor = byte_len(value.take(k));
    assert(value.take(0) =~= Seq::<char>::empty());
    if k > 0 {
        lemma_byte_len_take_grows(value, 0, k);
        lemma_remove_bytes(value, k - 1);
        let v = value.remove(k - 1);
        assert(v =~= value.take(k - 1) + value.skip(k));
        assert(v.take(k - 1) =~= value.take(k - 1));
    }
    match key.code {
        KeyCode::Char(ch) => {
            lemma_insert_bytes(value, k, ch);
            lemma_byte_len_push(value.take(k), ch);
            assert(value.insert(k, ch) =~= value.take(k) + seq![ch] + value.skip(k));
        },
        _ => {},
    }
}

/// `Delete` in a text field whose cursor stands before character `k` removes
/// exactly that character: what comes before and after it stays, in order,
/// and the cursor stays; at the end of the text it changes nothing.
pub proof fn law_delete_removes_next_char(value: Seq<char>, k: int, key: KeyEvent)
    requires
        0 <= k <= value.len(),
        key.code == KeyCode::Delete,
    ensures
        ({
            let cursor = byte_len(value.take(k));
            let (v, c) = text_step(value, cursor, key);
            &&& c == cursor
            &&& k < value.len() ==> v.len() + 1 == value.len() && v.take(k) == value.take(k)
                && v.skip(k) == value.skip(k + 1)
            &&& k == value.len() ==> v == value
        }),
{
    lemma_char_index_unique(value, k);
    let cursor = byte_len(value.take(k));
    if k < value.len() {
        let v = value.remove(k);
        assert(v.take(k) =~= value.take(k));
        assert(v.skip(k) =~= value.skip(k + 1));
    }
}

/// On a list of `n > 0` choices, Down (or `j`) moves the selection to the
/// next option unless it is on the last, Up (or `k`) to the previous unless
/// it is on the first; Space on a multi-choice list flips exactly the box
/// under its cursor.
pub proof fn law_choice_keys(sel: usize, checked: Seq<bool>, cursor: usize, n: nat, key: KeyEvent)
    requires
        n > 0,
        sel < n,
        cursor < checked.len(),
        checked.len() == n,
    ensures
        (key.code == KeyCode::Down && sel + 1 < n) ==> field_step(
            FieldStateView::SingleChoice { selected: sel },
            n,
            key,
        ) == (FieldStateView::SingleChoice { selected: (sel + 1) as usize }),
        (key.code == KeyCode::Down && sel + 1 == n) ==> field_step(
            FieldStateView::SingleChoice { selected: sel },
            n,
            key,
        ) == (FieldStateView::SingleChoice { selected: sel }),
        (key.code == KeyCode::Up && sel > 0) ==> field_step(
            FieldStateView::SingleChoice { selected: sel },
            n,
            key,
        ) == (FieldStateView::SingleChoice { selected: (sel - 1) as usize }),
        key.code == KeyCode::Char(' ') ==> ({
            let r = field_step(FieldStateView::MultiChoice { checked, cursor }, n, key);
            r matches FieldStateView::MultiChoice { checked: c2, cursor: k2 } && k2 == cursor
                && c2.len() == checked.len() && c2[cursor as int] == !checked[cursor as int]
                && forall|j: int| 0 <= j < checked.len() && j != cursor ==> #[trigger] c2[j] == checked[j]
        }),
{
}

/// The focus stays on a field, and every field's state keeps fitting its
/// field, whatever key comes.
pub proof fn law_field_key_keeps_fit(v: DialogView, key: KeyEvent)
    requires
        v.wf(),
        v.fields.len() > 0,
        v.has_room(key),
    ensures
        v.field_key(key).wf(),
{
    let a = v.active as int;
    let s = v.states[a];
    let f = v.fields[a];
    let n = f.options_spec().len();
    assert(state_fits(f, s));
    let w = v.field_key(key);
    assert forall|i: int| 0 <= i < w.fields.len() implies state_fits(
        #[trigger] w.fields[i],
        w.states[i],
    ) by {
        if i != a {
            assert(w.states[i] == v.states[i]);
        } else {
            match s {
                FieldStateView::Text { value, cursor } => {
                    lemma_text_step_fits(value, cursor, key);
                },
                FieldStateView::MultiChoice { checked, cursor } => {
                    if n > 0 && key.code == KeyCode::Char(' ') && cursor < checked.len() {
                        assert(checked.update(cursor as int, !checked[cursor as int]).len()
                            == checked.len());
                    }
                },
                _ => {},
            }
        }
    }
}

} // verus!
