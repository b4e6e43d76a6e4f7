//! The configuration tree: choices, options, actions and sections, and the
//! resolution of a selected action against the current option selections.

use crate::template::{render_spec, rep_lookup};
use vstd::prelude::*;

verus! {

/// Hands out a fresh identifier for a loaded choice: returns the counter's
/// current value and advances it.
pub fn next_option_id(counter: &mut usize) -> (id: usize)
    requires
        *old(counter) < usize::MAX,
    ensures
        id == *old(counter),
        *final(counter) == *old(counter) + 1,
{
    let id = *counter;
    *counter = *counter + 1;
    id
}

/// One selectable member of a choices option: a label for display, and the
/// arguments and text replacements it contributes when selected.
#[derive(Debug)]
pub struct GrunnerChoiceType {
    pub id: usize,
    pub label: String,
    pub args: Vec<String>,
    pub replacements: Vec<(String, String)>,
}

/// The mathematical content of a choice.
pub ghost struct ChoiceView {
    pub id: int,
    pub label: Seq<char>,
    pub args: Seq<Seq<char>>,
    pub replacements: Seq<(Seq<char>, Seq<char>)>,
}

impl ChoiceView {
    /// The choice with no content: what an unselected option contributes.
    pub open spec fn empty() -> ChoiceView {
        ChoiceView {
            id: 0,
            label: Seq::empty(),
            args: Seq::empty(),
            replacements: Seq::empty(),
        }
    }
}

impl View for GrunnerChoiceType {
    type V = ChoiceView;

    open spec fn view(&self) -> ChoiceView {
        ChoiceView {
            id: self.id as int,
            label: self.label@,
            args: self.args.deep_view(),
            replacements: self.replacements.deep_view(),
        }
    }
}

impl DeepView for GrunnerChoiceType {
    type V = ChoiceView;

    open spec fn deep_view(&self) -> ChoiceView {
        self.view()
    }
}

/// A copy of a string vector, element for element.
pub fn clone_strings(v: &Vec<String>) -> (r: Vec<String>)
    ensures
        r@ == v@,
{
    let mut r: Vec<String> = Vec::new();
    let mut i: usize = 0;
    while i < v.len()
        invariant
            i <= v.len(),
            r@ == v@.subrange(0, i as int),
        decreases v.len() - i,
    {
        r.push(v[i].clone());
        i = i + 1;
        proof {
            assert(r@ =~= v@.subrange(0, i as int));
        }
    }
    proof {
        assert(v@.subrange(0, v@.len() as int) =~= v@);
    }
    r
}

/// A copy of a replacement list, entry for entry.
pub fn clone_replacements(v: &Vec<(String, String)>) -> (r: Vec<(String, String)>)
    ensures
        r@ == v@,
{
    let mut r: Vec<(String, String)> = Vec::new();
    let mut i: usize = 0;
    while i < v.len()
        invariant
            i <= v.len(),
            r@ == v@.subrange(0, i as int),
        decreases v.len() - i,
    {
        let entry = &v[i];
        r.push((entry.0.clone(), entry.1.clone()));
        i = i + 1;
        proof {
            assert(r@ =~= v@.subrange(0, i as int));
        }
    }
    proof {
        assert(v@.subrange(0, v@.len() as int) =~= v@);
    }
    r
}

impl Clone for GrunnerChoiceType {
    fn clone(&self) -> (res: Self)
        ensures
            res@ == self@,
    {
        GrunnerChoiceType {
            id: self.id,
            label: self.label.clone(),
            args: clone_strings(&self.args),
            replacements: clone_replacements(&self.replacements),
        }
    }
}

impl Default for GrunnerChoiceType {
    /// The empty choice.
    fn default() -> (res: Self)
        ensures
            res@ == ChoiceView::empty(),
    {
        let res = GrunnerChoiceType {
            id: 0,
            label: String::new(),
            args: Vec::new(),
            replacements: Vec::new(),
        };
        proof {
            assert(res.args.deep_view() =~= Seq::<Seq<char>>::empty());
            assert(res.replacements.deep_view() =~= Seq::<(Seq<char>, Seq<char>)>::empty());
        }
        res
    }
}

/// A selection-change message routed to an option by name: either a new
/// choice index or a new flag value.
#[derive(Debug, Clone, Copy, PartialEq, Eq, Structural)]
pub enum GrunnerOptionMessage {
    ChoiceChanged(usize),
    FlagChanged(bool),
}

/// A configurable option: either a closed, mutually exclusive set of choices
/// or a boolean flag.
#[derive(Debug)]
pub enum GrunnerOption {
    Choices { name: String, choices: Vec<GrunnerChoiceType>, selected: Option<usize> },
    Flag { name: String, label: String, value: bool, args: Vec<String> },
}

/// The mathematical content of an option.
pub ghost enum OptionView {
    Choices { name: Seq<char>, choices: Seq<ChoiceView>, selected: Option<int> },
    Flag { name: Seq<char>, label: Seq<char>, value: bool, args: Seq<Seq<char>> },
}

impl View for GrunnerOption {
    type V = OptionView;

    open spec fn view(&self) -> OptionView {
        match self {
            GrunnerOption::Choices { name, choices, selected } => OptionView::Choices {
                name: name@,
                choices: choices.deep_view(),
                selected: match selected {
                    Some(i) => Some(*i as int),
                    None => None,
                },
            },
            GrunnerOption::Flag { name, label, value, args } => OptionView::Flag {
                name: name@,
                label: label@,
                value: *value,
                args: args.deep_view(),
            },
        }
    }
}

impl DeepView for GrunnerOption {
    type V = OptionView;

    open spec fn deep_view(&self) -> OptionView {
        self.view()
    }
}

impl OptionView {
    /// The option's name: the join key that routes selection changes and
    /// `use_options` references to it.
    pub open spec fn name(&self) -> Seq<char> {
        match *self {
            OptionView::Choices { name, .. } => name,
            OptionView::Flag { name, .. } => name,
        }
    }

    /// Well-formedness: a recorded selection indexes into the choices.
    pub open spec fn wf(&self) -> bool {
        match *self {
            OptionView::Choices { choices, selected, .. } => match selected {
                Some(i) => 0 <= i < choices.len(),
                None => true,
            },
            OptionView::Flag { .. } => true,
        }
    }

    /// The selected choice, or the empty choice when nothing is selected.
    pub open spec fn choice(&self) -> ChoiceView {
        match *self {
            OptionView::Choices { choices, selected, .. } => match selected {
                Some(i) => choices[i],
                None => ChoiceView::empty(),
            },
            OptionView::Flag { .. } => ChoiceView::empty(),
        }
    }

    /// The extra command-line arguments the option contributes: the selected
    /// choice's arguments, or a flag's arguments exactly when it is set.
    pub open spec fn args(&self) -> Seq<Seq<char>> {
        match *self {
            OptionView::Choices { .. } => self.choice().args,
            OptionView::Flag { value, args, .. } => if value {
                args
            } else {
                Seq::empty()
            },
        }
    }

    /// The text replacements the option contributes: the selected choice's
    /// replacements; flags contribute none.
    pub open spec fn replacements(&self) -> Seq<(Seq<char>, Seq<char>)> {
        match *self {
            OptionView::Choices { .. } => self.choice().replacements,
            OptionView::Flag { .. } => Seq::empty(),
        }
    }

    /// Default-select-first: a choices option with no selection yet selects
    /// its first choice; everything else is unchanged.
    pub open spec fn ensured(&self) -> OptionView {
        match *self {
            OptionView::Choices { name, choices, selected } => OptionView::Choices {
                name,
                choices,
                selected: if selected is Some || choices.len() == 0 {
                    selected
                } else {
                    Some(0)
                },
            },
            OptionView::Flag { .. } => *self,
        }
    }

    /// What a selection-change message does: the option afterwards, and
    /// whether the message applied. A choice index outside the choices, or a
    /// message of the wrong kind, leaves the option unchanged.
    pub open spec fn updated(&self, message: GrunnerOptionMessage) -> (OptionView, bool) {
        match message {
            GrunnerOptionMessage::ChoiceChanged(i) => match *self {
                OptionView::Choices { name, choices, selected } => if (i as int) < choices.len() {
                    (OptionView::Choices { name, choices, selected: Some(i as int) }, true)
                } else {
                    (*self, false)
                },
                OptionView::Flag { .. } => (*self, false),
            },
            GrunnerOptionMessage::FlagChanged(v) => match *self {
                OptionView::Flag { name, label, args, .. } => (
                    OptionView::Flag { name, label, value: v, args },
                    true,
                ),
                OptionView::Choices { .. } => (*self, false),
            },
        }
    }
}

/// Law: default-select-first is applied at most once and is stable: applying
/// it twice equals applying it once, and an option with no prior selection
/// and at least one choice ends up with its first choice selected.
pub proof fn lemma_default_selection_stable(o: OptionView)
    ensures
        o.ensured().ensured() == o.ensured(),
        o.ensured().choice() == o.ensured().ensured().choice(),
        (o matches OptionView::Choices { selected: None, choices, .. } && choices.len() > 0)
            ==> o.ensured() == (OptionView::Choices {
            name: o.name(),
            choices: o->Choices_choices,
            selected: Some(0),
        }),
{
}

impl GrunnerOption {
    /// Well-formedness of the underlying data.
    pub open spec fn wf(&self) -> bool {
        self@.wf()
    }

    /// The selected choice, copied out, or an empty default when nothing is
    /// selected (or for a flag).
    pub fn get_choice(&self) -> (r: GrunnerChoiceType)
        requires
            self.wf(),
        ensures
            r@ == self@.choice(),
    {
        match self {
            GrunnerOption::Choices { choices, selected, .. } => match selected {
                Some(i) => choices[*i].clone(),
                None => GrunnerChoiceType::default(),
            },
            GrunnerOption::Flag { .. } => GrunnerChoiceType::default(),
        }
    }

    /// The choices of a choices option.
    pub fn get_choices(&self) -> (r: &Vec<GrunnerChoiceType>)
        requires
            self is Choices,
        ensures
            r.deep_view() == self@->Choices_choices,
    {
        match self {
            GrunnerOption::Choices { choices, .. } => choices,
            GrunnerOption::Flag { .. } => unreached(),
        }
    }

    /// The extra command-line arguments contributed under the current
    /// selection.
    pub fn get_arg(&self) -> (r: Vec<String>)
        requires
            self.wf(),
        ensures
            r.deep_view() == self@.args(),
    {
        match self {
            GrunnerOption::Choices { choices, selected, .. } => match selected {
                Some(i) => clone_strings(&choices[*i].args),
                None => Vec::new(),
            },
            GrunnerOption::Flag { value, args, .. } => if *value {
                clone_strings(args)
            } else {
                Vec::new()
            },
        }
    }

    /// The option's name.
    pub fn get_name(&self) -> (r: &str)
        ensures
            r@ == self@.name(),
    {
        match self {
            GrunnerOption::Choices { name, .. } => name.as_str(),
            GrunnerOption::Flag { name, .. } => name.as_str(),
        }
    }

    /// The text replacements contributed under the current selection.
    pub fn get_replacements(&self) -> (r: Vec<(String, String)>)
        requires
            self.wf(),
        ensures
            r.deep_view() == self@.replacements(),
    {
        match self {
            GrunnerOption::Choices { choices, selected, .. } => match selected {
                Some(i) => clone_replacements(&choices[*i].replacements),
                None => Vec::new(),
            },
            GrunnerOption::Flag { .. } => Vec::new(),
        }
    }

    /// Applies default-select-first: a choices option with no selection yet
    /// selects its first choice.
    pub fn ensure_selected(&mut self)
        ensures
            final(self)@ == old(self)@.ensured(),
    {
        if let GrunnerOption::Choices { choices, selected, .. } = self {
            if selected.is_none() && choices.len() > 0 {
                *selected = Some(0);
            }
        }
    }

    /// Routes a selection-change message to the option: an in-range choice
    /// index or a flag value is recorded and `true` returned; anything else
    /// leaves the option unchanged and returns `false`.
    pub fn update(&mut self, message: GrunnerOptionMessage) -> (applied: bool)
        ensures
            (final(self)@, applied) == old(self)@.updated(message),
            old(self).wf() ==> final(self).wf(),
    {
        match message {
            GrunnerOptionMessage::ChoiceChanged(i) => {
                if let GrunnerOption::Choices { choices, selected, .. } = self {
                    if i < choices.len() {
                        *selected = Some(i);
                        return true;
                    }
                }
                false
            },
            GrunnerOptionMessage::FlagChanged(v) => {
                if let GrunnerOption::Flag { value, .. } = self {
                    *value = v;
                    return true;
                }
                false
            },
        }
    }
}

/// A copy of an optional string.
pub fn clone_opt_string(v: &Option<String>) -> (r: Option<String>)
    ensures
        r == *v,
{
    match v {
        Some(s) => Some(s.clone()),
        None => None,
    }
}

/// A copy of a choice vector, element for element.
pub fn clone_choices(v: &Vec<GrunnerChoiceType>) -> (r: Vec<GrunnerChoiceType>)
    ensures
        r.deep_view() == v.deep_view(),
{
    let mut r: Vec<GrunnerChoiceType> = Vec::new();
    let mut i: usize = 0;
    while i < v.len()
        invariant
            i <= v.len(),
            r.deep_view() == v.deep_view().subrange(0, i as int),
        decreases v.len() - i,
    {
        let c = v[i].clone();
        let ghost cv = c.deep_view();
        let ghost r0 = r.deep_view();
        r.push(c);
        i = i + 1;
        proof {
            assert(cv == v.deep_view()[i - 1]);
            assert(r.deep_view() =~= r0.push(cv));
            assert(r.deep_view() =~= v.deep_view().subrange(0, i as int));
        }
    }
    proof {
        assert(v.deep_view().subrange(0, v.deep_view().len() as int) =~= v.deep_view());
    }
    r
}

impl Clone for GrunnerOption {
    fn clone(&self) -> (res: Self)
        ensures
            res@ == self@,
    {
        match self {
            GrunnerOption::Choices { name, choices, selected } => GrunnerOption::Choices {
                name: name.clone(),
                choices: clone_choices(choices),
                selected: *selected,
            },
            GrunnerOption::Flag { name, label, value, args } => GrunnerOption::Flag {
                name: name.clone(),
                label: label.clone(),
                value: *value,
                args: clone_strings(args),
            },
        }
    }
}

/// A named, user-triggerable unit of work: an execution-string template,
/// static arguments, the names of the options it consumes, optional verdict
/// sounds, and the option-contributed arguments of the current resolution.
#[derive(Debug)]
pub struct GrunnerAction {
    pub name: String,
    pub execute: String,
    pub args: Vec<String>,
    pub use_options: Vec<String>,
    pub success_sound: Option<String>,
    pub fail_sound: Option<String>,
    pub options: Vec<String>,
}

/// The mathematical content of an action.
pub ghost struct ActionView {
    pub name: Seq<char>,
    pub execute: Seq<char>,
    pub args: Seq<Seq<char>>,
    pub use_options: Seq<Seq<char>>,
    pub success_sound: Option<Seq<char>>,
    pub fail_sound: Option<Seq<char>>,
    pub options: Seq<Seq<char>>,
}

impl View for GrunnerAction {
    type V = ActionView;

    open spec fn view(&self) -> ActionView {
        ActionView {
            name: self.name@,
            execute: self.execute@,
            args: self.args.deep_view(),
            use_options: self.use_options.deep_view(),
            success_sound: self.success_sound.deep_view(),
            fail_sound: self.fail_sound.deep_view(),
            options: self.options.deep_view(),
        }
    }
}

impl DeepView for GrunnerAction {
    type V = ActionView;

    open spec fn deep_view(&self) -> ActionView {
        self.view()
    }
}

impl Clone for GrunnerAction {
    fn clone(&self) -> (res: Self)
        ensures
            res@ == self@,
    {
        GrunnerAction {
            name: self.name.clone(),
            execute: self.execute.clone(),
            args: clone_strings(&self.args),
            use_options: clone_strings(&self.use_options),
            success_sound: clone_opt_string(&self.success_sound),
            fail_sound: clone_opt_string(&self.fail_sound),
            options: clone_strings(&self.options),
        }
    }
}

impl GrunnerAction {
    /// Records the option-contributed arguments of the current resolution.
    pub fn set_selected_options(&mut self, opts: Vec<String>)
        ensures
            final(self)@ == (ActionView { options: opts.deep_view(), ..old(self)@ }),
    {
        self.options = opts;
    }

    /// Renders the execution-string template once with the given replacement
    /// list; the other fields are untouched.
    pub fn apply_replacement_map(&mut self, reps: &Vec<(String, String)>)
        ensures
            final(self)@ == (ActionView {
                execute: render_spec(old(self)@.execute, reps.deep_view()),
                ..old(self)@
            }),
    {
        let new_execute = crate::template::render_template(self.execute.as_str(), reps);
        self.execute = new_execute;
    }
}

/// A titled group of options and the actions they parameterize.
#[derive(Debug)]
pub struct GrunnerSection {
    pub label: String,
    pub options: Vec<GrunnerOption>,
    pub actions: Vec<GrunnerAction>,
}

/// The mathematical content of a section.
pub ghost struct SectionView {
    pub label: Seq<char>,
    pub options: Seq<OptionView>,
    pub actions: Seq<ActionView>,
}

impl View for GrunnerSection {
    type V = SectionView;

    open spec fn view(&self) -> SectionView {
        SectionView {
            label: self.label@,
            options: self.options.deep_view(),
            actions: self.actions.deep_view(),
        }
    }
}

impl DeepView for GrunnerSection {
    type V = SectionView;

    open spec fn deep_view(&self) -> SectionView {
        self.view()
    }
}

/// The whole configuration tree: an ordered sequence of sections, loaded once
/// at startup.
#[derive(Debug)]
pub struct GrunnerConfig {
    pub sections: Vec<GrunnerSection>,
}

/// The mathematical content of a configuration.
pub ghost struct ConfigView {
    pub sections: Seq<SectionView>,
}

impl View for GrunnerConfig {
    type V = ConfigView;

    open spec fn view(&self) -> ConfigView {
        ConfigView { sections: self.sections.deep_view() }
    }
}

/// The index of the first option with the given name, if any.
pub open spec fn find_option(opts: Seq<OptionView>, name: Seq<char>) -> Option<int>
    decreases opts.len(),
{
    if opts.len() == 0 {
        None
    } else if opts[0].name() == name {
        Some(0int)
    } else {
        match find_option(opts.drop_first(), name) {
            Some(i) => Some(i + 1),
            None => None,
        }
    }
}

pub proof fn lemma_find_option(opts: Seq<OptionView>, name: Seq<char>)
    ensures
        match find_option(opts, name) {
            Some(i) => 0 <= i < opts.len() && opts[i].name() == name && (forall|k: int|
                0 <= k < i ==> opts[k].name() != name),
            None => forall|k: int| 0 <= k < opts.len() ==> opts[k].name() != name,
        },
    decreases opts.len(),
{
    if opts.len() == 0 {
    } else if opts[0].name() == name {
    } else {
        lemma_find_option(opts.drop_first(), name);
        assert forall|k: int| 1 <= k < opts.len() implies opts[k]
            == opts.drop_first()[k - 1] by {}
    }
}

/// The options after default-select-first has been applied to the option the
/// given name selects, if it exists.
pub open spec fn ensure_one(opts: Seq<OptionView>, name: Seq<char>) -> Seq<OptionView> {
    match find_option(opts, name) {
        Some(i) => opts.update(i, opts[i].ensured()),
        None => opts,
    }
}

/// The options after default-select-first has been applied for each listed
/// name in turn.
pub open spec fn ensure_all(opts: Seq<OptionView>, names: Seq<Seq<char>>) -> Seq<OptionView>
    decreases names.len(),
{
    if names.len() == 0 {
        opts
    } else {
        ensure_all(ensure_one(opts, names[0]), names.drop_first())
    }
}

pub proof fn lemma_ensure_all_append(
    opts: Seq<OptionView>,
    names1: Seq<Seq<char>>,
    names2: Seq<Seq<char>>,
)
    ensures
        ensure_all(opts, names1 + names2) == ensure_all(ensure_all(opts, names1), names2),
    decreases names1.len(),
{
    if names1.len() == 0 {
        assert(names1 + names2 =~= names2);
    } else {
        assert((names1 + names2)[0] == names1[0]);
        assert((names1 + names2).drop_first() =~= names1.drop_first() + names2);
        lemma_ensure_all_append(ensure_one(opts, names1[0]), names1.drop_first(), names2);
    }
}

/// The option-contributed arguments of a resolution: for each listed name in
/// order, the arguments of the option it selects, if any.
pub open spec fn resolved_args(opts: Seq<OptionView>, names: Seq<Seq<char>>) -> Seq<Seq<char>>
    decreases names.len(),
{
    if names.len() == 0 {
        Seq::empty()
    } else {
        (match find_option(opts, names[0]) {
            Some(i) => opts[i].args(),
            None => Seq::empty(),
        }) + resolved_args(opts, names.drop_first())
    }
}

/// The accumulated replacement list of a resolution: for each listed name in
/// order, the replacements of the option it selects, if any. Options listed
/// later contribute later bindings, which shadow earlier ones on lookup.
pub open spec fn resolved_reps(opts: Seq<OptionView>, names: Seq<Seq<char>>) -> Seq<
    (Seq<char>, Seq<char>),
>
    decreases names.len(),
{
    if names.len() == 0 {
        Seq::empty()
    } else {
        (match find_option(opts, names[0]) {
            Some(i) => opts[i].replacements(),
            None => Seq::empty(),
        }) + resolved_reps(opts, names.drop_first())
    }
}

pub proof fn lemma_resolved_append(
    opts: Seq<OptionView>,
    names1: Seq<Seq<char>>,
    names2: Seq<Seq<char>>,
)
    ensures
        resolved_args(opts, names1 + names2) == resolved_args(opts, names1) + resolved_args(
            opts,
            names2,
        ),
        resolved_reps(opts, names1 + names2) == resolved_reps(opts, names1) + resolved_reps(
            opts,
            names2,
        ),
    decreases names1.len(),
{
    if names1.len() == 0 {
        assert(names1 + names2 =~= names2);
        assert(resolved_args(opts, names1 + names2) =~= resolved_args(opts, names1)
            + resolved_args(opts, names2));
        assert(resolved_reps(opts, names1 + names2) =~= resolved_reps(opts, names1)
            + resolved_reps(opts, names2));
    } else {
        assert((names1 + names2)[0] == names1[0]);
        assert((names1 + names2).drop_first() =~= names1.drop_first() + names2);
        lemma_resolved_append(opts, names1.drop_first(), names2);
        assert(resolved_args(opts, names1 + names2) =~= resolved_args(opts, names1)
            + resolved_args(opts, names2));
        assert(resolved_reps(opts, names1 + names2) =~= resolved_reps(opts, names1)
            + resolved_reps(opts, names2));
    }
}

/// The resolved form of an action, read against options to which
/// default-select-first has already been applied: the static fields are kept,
/// the option-contributed arguments are recorded, and the execution string is
/// rendered with the accumulated replacements.
pub open spec fn resolve_result(a: ActionView, opts: Seq<OptionView>) -> ActionView {
    ActionView {
        execute: render_spec(a.execute, resolved_reps(opts, a.use_options)),
        options: resolved_args(opts, a.use_options),
        ..a
    }
}

/// Whether an option's view matches a name.
fn option_has_name(o: &GrunnerOption, name: &String) -> (r: bool)
    ensures
        r == (o@.name() == name@),
{
    match o {
        GrunnerOption::Choices { name: n, .. } => *n == *name,
        GrunnerOption::Flag { name: n, .. } => *n == *name,
    }
}

/// The index of the first option with the given name, if any.
fn find_option_index(options: &Vec<GrunnerOption>, name: &String) -> (r: Option<usize>)
    ensures
        match r {
            Some(j) => j < options.len() && find_option(options.deep_view(), name@) == Some(
                j as int,
            ),
            None => find_option(options.deep_view(), name@) is None,
        },
{
    let mut j: usize = 0;
    while j < options.len()
        invariant
            j <= options.len(),
            options.deep_view().len() == options.len(),
            forall|k: int| 0 <= k < j ==> options.deep_view()[k].name() != name@,
        decreases options.len() - j,
    {
        if option_has_name(&options[j], name) {
            proof {
                let dv = options.deep_view();
                assert(dv[j as int] == options@[j as int].deep_view());
                lemma_find_option(dv, name@);
                match find_option(dv, name@) {
                    Some(i) => {
                        if i < j as int {
                            assert(dv[i].name() != name@);
                            assert(false);
                        } else if i > j as int {
                            assert(dv[j as int].name() != name@);
                            assert(false);
                        }
                    },
                    None => {
                        assert(dv[j as int].name() != name@);
                        assert(false);
                    },
                }
            }
            return Some(j);
        }
        proof {
            assert(options.deep_view()[j as int] == options@[j as int].deep_view());
        }
        j = j + 1;
    }
    proof {
        let dv = options.deep_view();
        lemma_find_option(dv, name@);
        match find_option(dv, name@) {
            Some(i) => {
                assert(dv[i].name() != name@);
                assert(false);
            },
            None => {},
        }
    }
    None
}

/// Appends every element of `src` to `dst`.
fn append_strings(dst: &mut Vec<String>, src: Vec<String>)
    ensures
        final(dst)@ == old(dst)@ + src@,
{
    let mut i: usize = 0;
    while i < src.len()
        invariant
            i <= src.len(),
            dst@ == old(dst)@ + src@.subrange(0, i as int),
        decreases src.len() - i,
    {
        dst.push(src[i].clone());
        i = i + 1;
        proof {
            assert(dst@ =~= old(dst)@ + src@.subrange(0, i as int));
        }
    }
    proof {
        assert(old(dst)@ + src@.subrange(0, src@.len() as int) =~= old(dst)@ + src@);
    }
}

/// Appends every entry of `src` to `dst`.
fn append_replacements(dst: &mut Vec<(String, String)>, src: Vec<(String, String)>)
    ensures
        final(dst)@ == old(dst)@ + src@,
{
    let mut i: usize = 0;
    while i < src.len()
        invariant
            i <= src.len(),
            dst@ == old(dst)@ + src@.subrange(0, i as int),
        decreases src.len() - i,
    {
        let entry = &src[i];
        dst.push((entry.0.clone(), entry.1.clone()));
        i = i + 1;
        proof {
            assert(dst@ =~= old(dst)@ + src@.subrange(0, i as int));
        }
    }
    proof {
        assert(old(dst)@ + src@.subrange(0, src@.len() as int) =~= old(dst)@ + src@);
    }
}

/// Resolves an action against its section's options: default-select-first is
/// applied to every consulted choices option, the options named in
/// `use_options` contribute their arguments and replacements in listed order
/// (names that match no option are skipped), and the result carries the
/// recorded option arguments and the rendered execution string.
pub fn resolve_action(action: &GrunnerAction, options: &mut Vec<GrunnerOption>) -> (resolved:
    GrunnerAction)
    requires
        forall|k: int| 0 <= k < old(options).deep_view().len()
            ==> old(options).deep_view()[k].wf(),
    ensures
        final(options).deep_view() == ensure_all(old(options).deep_view(), action@.use_options),
        forall|k: int| 0 <= k < final(options).deep_view().len()
            ==> final(options).deep_view()[k].wf(),
        resolved@ == resolve_result(action@, final(options).deep_view()),
{
    let ghost names = action@.use_options;
    let ghost opts0 = options.deep_view();

    // First pass: apply default-select-first to every option that a listed
    // name selects.
    let mut k: usize = 0;
    while k < action.use_options.len()
        invariant
            k <= action.use_options.len(),
            names == action@.use_options,
            names.len() == action.use_options.len(),
            options.deep_view() == ensure_all(opts0, names.subrange(0, k as int)),
            forall|i: int| 0 <= i < options.deep_view().len() ==> options.deep_view()[i].wf(),
        decreases action.use_options.len() - k,
    {
        let ghost opts_before = options.deep_view();
        let name = &action.use_options[k];
        proof {
            assert(name@ == names[k as int]);
        }
        match find_option_index(options, name) {
            Some(j) => {
                let mut o = options[j].clone();
                o.ensure_selected();
                proof {
                    assert(o@ == opts_before[j as int].ensured());
                }
                options.set(j, o);
                proof {
                    assert(options.deep_view() =~= opts_before.update(
                        j as int,
                        opts_before[j as int].ensured(),
                    ));
                    assert(options.deep_view() == ensure_one(opts_before, names[k as int]));
                }
            },
            None => {
                proof {
                    assert(options.deep_view() == ensure_one(opts_before, names[k as int]));
                }
            },
        }
        k = k + 1;
        proof {
            assert(names.subrange(0, k as int) =~= names.subrange(0, k - 1) + seq![
                names[k - 1],
            ]);
            lemma_ensure_all_append(opts0, names.subrange(0, k - 1), seq![names[k - 1]]);
            let s = seq![names[k - 1]];
            assert(s.drop_first() =~= Seq::<Seq<char>>::empty());
            let e1 = ensure_one(opts_before, names[k - 1]);
            assert(ensure_all(e1, s.drop_first()) == e1);
            assert(ensure_all(opts_before, s) == e1);
            assert forall|i: int|
                0 <= i < options.deep_view().len() implies options.deep_view()[i].wf() by {
                assert(opts_before[i].wf());
            }
        }
    }
    proof {
        assert(names.subrange(0, names.len() as int) =~= names);
    }

    // Second pass: collect the consulted options' arguments and replacements
    // in listed order.
    let ghost opts1 = options.deep_view();
    let mut opt_args: Vec<String> = Vec::new();
    let mut reps: Vec<(String, String)> = Vec::new();
    let mut k: usize = 0;
    while k < action.use_options.len()
        invariant
            k <= action.use_options.len(),
            names == action@.use_options,
            names.len() == action.use_options.len(),
            options.deep_view() == opts1,
            forall|i: int| 0 <= i < opts1.len() ==> opts1[i].wf(),
            opt_args.deep_view() == resolved_args(opts1, names.subrange(0, k as int)),
            reps.deep_view() == resolved_reps(opts1, names.subrange(0, k as int)),
        decreases action.use_options.len() - k,
    {
        let ghost args_before = opt_args.deep_view();
        let ghost reps_before = reps.deep_view();
        let name = &action.use_options[k];
        proof {
            assert(name@ == names[k as int]);
        }
        match find_option_index(options, name) {
            Some(j) => {
                proof {
                    assert(options@[j as int].deep_view() == opts1[j as int]);
                }
                let a = options[j].get_arg();
                let ghost av = a.deep_view();
                append_strings(&mut opt_args, a);
                let r = options[j].get_replacements();
                let ghost rv = r.deep_view();
                append_replacements(&mut reps, r);
                proof {
                    assert(opt_args.deep_view() =~= args_before + av);
                    assert(reps.deep_view() =~= reps_before + rv);
                }
            },
            None => {},
        }
        k = k + 1;
        proof {
            assert(names.subrange(0, k as int) =~= names.subrange(0, k - 1) + seq![
                names[k - 1],
            ]);
            lemma_resolved_append(opts1, names.subrange(0, k - 1), seq![names[k - 1]]);
            let s = seq![names[k - 1]];
            assert(s.drop_first() =~= Seq::<Seq<char>>::empty());
            assert(resolved_args(opts1, s.drop_first()) =~= Seq::<Seq<char>>::empty());
            assert(resolved_reps(opts1, s.drop_first()) =~= Seq::<(Seq<char>, Seq<char>)>::empty());
            assert(resolved_args(opts1, s) =~= (match find_option(opts1, names[k - 1]) {
                Some(i) => opts1[i].args(),
                None => Seq::empty(),
            }));
            assert(resolved_reps(opts1, s) =~= (match find_option(opts1, names[k - 1]) {
                Some(i) => opts1[i].replacements(),
                None => Seq::empty(),
            }));
        }
    }
    proof {
        assert(names.subrange(0, names.len() as int) =~= names);
    }

    let mut resolved = action.clone();
    resolved.set_selected_options(opt_args);
    resolved.apply_replacement_map(&reps);
    resolved
}

/// Whether default-select-first can no longer change the option the given
/// name selects.
pub open spec fn ensured_at(opts: Seq<OptionView>, name: Seq<char>) -> bool {
    match find_option(opts, name) {
        Some(i) => opts[i].ensured() == opts[i],
        None => true,
    }
}

pub proof fn lemma_ensure_one_same_names(opts: Seq<OptionView>, name: Seq<char>)
    ensures
        ensure_one(opts, name).len() == opts.len(),
        forall|k: int|
            0 <= k < opts.len() ==> ensure_one(opts, name)[k].name() == opts[k].name(),
{
    lemma_find_option(opts, name);
    match find_option(opts, name) {
        Some(i) => {
            assert(opts[i].ensured().name() == opts[i].name());
        },
        None => {},
    }
}

pub proof fn lemma_find_same_names(a: Seq<OptionView>, b: Seq<OptionView>, q: Seq<char>)
    requires
        a.len() == b.len(),
        forall|k: int| 0 <= k < a.len() ==> a[k].name() == b[k].name(),
    ensures
        find_option(a, q) == find_option(b, q),
    decreases a.len(),
{
    if a.len() == 0 {
    } else {
        assert(a[0].name() == b[0].name());
        assert forall|k: int| 0 <= k < a.len() - 1 implies a.drop_first()[k].name()
            == b.drop_first()[k].name() by {
            assert(a.drop_first()[k] == a[k + 1]);
            assert(b.drop_first()[k] == b[k + 1]);
        }
        lemma_find_same_names(a.drop_first(), b.drop_first(), q);
    }
}

pub proof fn lemma_ensure_one_preserves_ensured(
    opts: Seq<OptionView>,
    name: Seq<char>,
    q: Seq<char>,
)
    requires
        ensured_at(opts, q),
    ensures
        ensured_at(ensure_one(opts, name), q),
{
    lemma_find_option(opts, name);
    lemma_find_option(opts, q);
    lemma_ensure_one_same_names(opts, name);
    lemma_find_same_names(opts, ensure_one(opts, name), q);
    let o2 = ensure_one(opts, name);
    match find_option(opts, q) {
        Some(i) => match find_option(opts, name) {
            Some(j) => {
                if i == j {
                    lemma_default_selection_stable(opts[i]);
                    assert(o2[i] == opts[i].ensured());
                } else {
                    assert(o2[i] == opts[i]);
                }
            },
            None => {
                assert(o2 == opts);
            },
        },
        None => {},
    }
}

pub proof fn lemma_ensure_one_establishes_ensured(opts: Seq<OptionView>, name: Seq<char>)
    ensures
        ensured_at(ensure_one(opts, name), name),
{
    lemma_find_option(opts, name);
    lemma_ensure_one_same_names(opts, name);
    lemma_find_same_names(opts, ensure_one(opts, name), name);
    let o2 = ensure_one(opts, name);
    match find_option(opts, name) {
        Some(i) => {
            lemma_default_selection_stable(opts[i]);
            assert(o2[i] == opts[i].ensured());
        },
        None => {},
    }
}

pub proof fn lemma_ensure_all_preserves_ensured(
    opts: Seq<OptionView>,
    names: Seq<Seq<char>>,
    q: Seq<char>,
)
    requires
        ensured_at(opts, q),
    ensures
        ensured_at(ensure_all(opts, names), q),
    decreases names.len(),
{
    if names.len() == 0 {
    } else {
        lemma_ensure_one_preserves_ensured(opts, names[0], q);
        lemma_ensure_all_preserves_ensured(ensure_one(opts, names[0]), names.drop_first(), q);
    }
}

pub proof fn lemma_ensure_all_establishes_ensured(
    opts: Seq<OptionView>,
    names: Seq<Seq<char>>,
    t: int,
)
    requires
        0 <= t < names.len(),
    ensures
        ensured_at(ensure_all(opts, names), names[t]),
    decreases names.len(),
{
    let o1 = ensure_one(opts, names[0]);
    if t == 0 {
        lemma_ensure_one_establishes_ensured(opts, names[0]);
        lemma_ensure_all_preserves_ensured(o1, names.drop_first(), names[0]);
    } else {
        lemma_ensure_all_establishes_ensured(o1, names.drop_first(), t - 1);
        assert(names.drop_first()[t - 1] == names[t]);
    }
}

pub proof fn lemma_ensure_all_identity(opts: Seq<OptionView>, names: Seq<Seq<char>>)
    requires
        forall|t: int| 0 <= t < names.len() ==> ensured_at(opts, names[t]),
    ensures
        ensure_all(opts, names) == opts,
    decreases names.len(),
{
    if names.len() == 0 {
    } else {
        lemma_find_option(opts, names[0]);
        assert(ensured_at(opts, names[0]));
        match find_option(opts, names[0]) {
            Some(i) => {
                assert(opts.update(i, opts[i].ensured()) =~= opts);
            },
            None => {},
        }
        assert(ensure_one(opts, names[0]) == opts);
        assert forall|t: int|
            0 <= t < names.len() - 1 implies ensured_at(opts, names.drop_first()[t]) by {
            assert(names.drop_first()[t] == names[t + 1]);
        }
        lemma_ensure_all_identity(opts, names.drop_first());
    }
}

/// Law: resolution is stable. Resolving applies default-select-first at most
/// once per option: resolving again for the same names changes no selection,
/// so repeated resolution without an intervening selection change reads the
/// same selected indices.
pub proof fn lemma_resolution_stable(opts: Seq<OptionView>, names: Seq<Seq<char>>)
    ensures
        ensure_all(ensure_all(opts, names), names) == ensure_all(opts, names),
{
    let o1 = ensure_all(opts, names);
    assert forall|t: int| 0 <= t < names.len() implies ensured_at(o1, names[t]) by {
        lemma_ensure_all_establishes_ensured(opts, names, t);
    }
    lemma_ensure_all_identity(o1, names);
}

/// Law: when an action consults two runs of options in order and both bind
/// the same replacement key, lookup in the accumulated replacement list takes
/// the later run's binding; the earlier run is consulted only for keys the
/// later one does not bind.
pub proof fn lemma_use_options_last_write_wins(
    opts: Seq<OptionView>,
    names1: Seq<Seq<char>>,
    names2: Seq<Seq<char>>,
    key: Seq<char>,
)
    ensures
        rep_lookup(resolved_reps(opts, names1 + names2), key) == if rep_lookup(
            resolved_reps(opts, names2),
            key,
        ) is Some {
            rep_lookup(resolved_reps(opts, names2), key)
        } else {
            rep_lookup(resolved_reps(opts, names1), key)
        },
{
    lemma_resolved_append(opts, names1, names2);
    crate::template::lemma_last_write_wins(
        resolved_reps(opts, names1),
        resolved_reps(opts, names2),
        key,
    );
}

/// Where a selection-change message lands: the first option with the given
/// name, scanning the sections in order.
pub open spec fn find_in_sections(sections: Seq<SectionView>, name: Seq<char>) -> Option<
    (int, int),
>
    decreases sections.len(),
{
    if sections.len() == 0 {
        None
    } else {
        match find_option(sections[0].options, name) {
            Some(j) => Some((0int, j)),
            None => match find_in_sections(sections.drop_first(), name) {
                Some(p) => Some((p.0 + 1, p.1)),
                None => None,
            },
        }
    }
}

pub proof fn lemma_find_in_sections(sections: Seq<SectionView>, name: Seq<char>)
    ensures
        match find_in_sections(sections, name) {
            Some(p) => 0 <= p.0 < sections.len() && find_option(sections[p.0].options, name)
                == Some(p.1) && (forall|k: int|
                0 <= k < p.0 ==> find_option(sections[k].options, name) is None),
            None => forall|k: int|
                0 <= k < sections.len() ==> find_option(sections[k].options, name) is None,
        },
    decreases sections.len(),
{
    if sections.len() == 0 {
    } else {
        lemma_find_in_sections(sections.drop_first(), name);
        assert forall|k: int| 1 <= k < sections.len() implies sections[k]
            == sections.drop_first()[k - 1] by {}
    }
}

/// The configuration after a selection-change message: the first option
/// carrying the name is updated as `OptionView::updated` says; a
/// configuration in which no option carries the name is unchanged, and the
/// flag tells whether the message applied.
pub open spec fn config_updated(
    c: ConfigView,
    name: Seq<char>,
    message: GrunnerOptionMessage,
) -> (ConfigView, bool) {
    match find_in_sections(c.sections, name) {
        Some(p) => {
            let sec = c.sections[p.0];
            let up = sec.options[p.1].updated(message);
            (
                ConfigView {
                    sections: c.sections.update(
                        p.0,
                        SectionView { options: sec.options.update(p.1, up.0), ..sec },
                    ),
                },
                up.1,
            )
        },
        None => (c, false),
    }
}

impl GrunnerConfig {
    /// Routes a selection-change message to the first option carrying the
    /// given name, scanning the sections in order; returns whether a matching
    /// option was found and the message applied.
    pub fn apply_option_change(&mut self, name: &String, message: GrunnerOptionMessage) -> (applied:
        bool)
        ensures
            (final(self)@, applied) == config_updated(old(self)@, name@, message),
    {
        let ghost secs0 = self.sections.deep_view();
        let mut s: usize = 0;
        while s < self.sections.len()
            invariant
                s <= self.sections.len(),
                self.sections.deep_view() == secs0,
                self@ == old(self)@,
                forall|k: int| 0 <= k < s ==> find_option(secs0[k].options, name@) is None,
            decreases self.sections.len() - s,
        {
            proof {
                assert(self.sections@[s as int].deep_view() == secs0[s as int]);
            }
            match find_option_index(&self.sections[s].options, name) {
                Some(j) => {
                    let ghost target = secs0[s as int].options[j as int];
                    let mut sec = GrunnerSection {
                        label: String::new(),
                        options: Vec::new(),
                        actions: Vec::new(),
                    };
                    self.sections.set_and_swap(s, &mut sec);
                    let mut o = sec.options[j].clone();
                    proof {
                        assert(sec.options@[j as int].deep_view() == target);
                    }
                    let applied = o.update(message);
                    sec.options.set(j, o);
                    proof {
                        let up = target.updated(message);
                        assert(sec.options.deep_view() =~= secs0[s as int].options.update(
                            j as int,
                            up.0,
                        ));
                        assert(sec.deep_view() == (SectionView {
                            options: secs0[s as int].options.update(j as int, up.0),
                            ..secs0[s as int]
                        }));
                    }
                    let ghost modsec = sec.deep_view();
                    self.sections.set_and_swap(s, &mut sec);
                    proof {
                        let up = target.updated(message);
                        assert(self.sections.deep_view() =~= secs0.update(s as int, modsec));
                        lemma_find_in_sections(secs0, name@);
                        match find_in_sections(secs0, name@) {
                            Some(p) => {
                                if p.0 < s as int {
                                    assert(find_option(secs0[p.0].options, name@) is None);
                                    assert(false);
                                } else if p.0 > s as int {
                                    assert(find_option(secs0[s as int].options, name@) is None);
                                    assert(false);
                                }
                            },
                            None => {
                                assert(find_option(secs0[s as int].options, name@) is None);
                                assert(false);
                            },
                        }
                    }
                    return applied;
                },
                None => {},
            }
            s = s + 1;
        }
        proof {
            lemma_find_in_sections(secs0, name@);
            match find_in_sections(secs0, name@) {
                Some(p) => {
                    assert(find_option(secs0[p.0].options, name@) is None);
                    assert(false);
                },
                None => {},
            }
        }
        false
    }
}

} // verus!
