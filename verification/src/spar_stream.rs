//! The data model of a stage description: variables, replication policies,
//! per-stage attributes, stages and the whole stream, together with their
//! mathematical models.

use vstd::prelude::*;

use crate::parse::SparError;
use crate::tokens::{
    lemma_tokens_model_index, lemma_tokens_model_len, tokens_eq, tokens_model, clone_tokens, Token,
    TokenModel,
};

verus! {

/// The rendered type of a variable, kept as the token sequence that was
/// written after the `:` in a variable list.
#[derive(Debug, PartialEq, Eq)]
pub struct VarType(pub Vec<Token>);

/// A declared variable: an identifier together with its type text.
#[derive(Debug, PartialEq, Eq)]
pub struct SparVar {
    pub identifier: String,
    pub var_type: VarType,
}

/// How a stage is run: replicated a fixed or named number of times, or as a
/// single sequential node, ordered or not.  `SeqUnordered` is the default
/// when no attribute is given.
#[derive(Debug, PartialEq, Eq)]
pub enum Replicate {
    Lit(u32),
    Var(String),
    SeqOrdered,
    SeqUnordered,
}

/// The attribute set of a stage or of the whole stream: declared inputs,
/// declared outputs, and the replication policy.
#[derive(Debug, PartialEq, Eq)]
pub struct SparAttrs {
    pub input: Vec<SparVar>,
    pub output: Vec<SparVar>,
    pub replicate: Replicate,
}

/// One declared stage: its attributes, the state variables found during
/// dependency resolution (never by the parser), its body, and its position.
#[derive(Debug)]
pub struct SparStage {
    pub attrs: SparAttrs,
    pub state: Vec<SparVar>,
    pub code: Vec<Token>,
    pub id: usize,
}

/// A fully parsed and resolved stream: stream-level attributes, the ordered
/// stages, and every variable that lives outside the pipeline.
#[derive(Debug)]
pub struct SparStream {
    pub attrs: SparAttrs,
    pub stages: Vec<SparStage>,
    pub external_vars: Vec<SparVar>,
}

/// Model of a variable.
#[verifier::ext_equal]
pub struct VarModel {
    pub identifier: Seq<char>,
    pub var_type: Seq<TokenModel>,
}

/// Model of a replication policy.
pub enum ReplicateModel {
    Lit(u32),
    Var(Seq<char>),
    SeqOrdered,
    SeqUnordered,
}

/// Model of an attribute set.
#[verifier::ext_equal]
pub struct AttrsModel {
    pub input: Seq<VarModel>,
    pub output: Seq<VarModel>,
    pub replicate: ReplicateModel,
}

/// Model of a stage.
#[verifier::ext_equal]
pub struct StageModel {
    pub attrs: AttrsModel,
    pub state: Seq<VarModel>,
    pub code: Seq<TokenModel>,
    pub id: usize,
}

/// Model of a stream.
#[verifier::ext_equal]
pub struct StreamModel {
    pub attrs: AttrsModel,
    pub stages: Seq<StageModel>,
    pub external_vars: Seq<VarModel>,
}

impl View for VarType {
    type V = Seq<TokenModel>;

    open spec fn view(&self) -> Seq<TokenModel> {
        tokens_model(self.0@)
    }
}

impl View for SparVar {
    type V = VarModel;

    open spec fn view(&self) -> VarModel {
        VarModel { identifier: self.identifier@, var_type: tokens_model(self.var_type.0@) }
    }
}

impl View for Replicate {
    type V = ReplicateModel;

    open spec fn view(&self) -> ReplicateModel {
        match self {
            Replicate::Lit(n) => ReplicateModel::Lit(*n),
            Replicate::Var(s) => ReplicateModel::Var(s@),
            Replicate::SeqOrdered => ReplicateModel::SeqOrdered,
            Replicate::SeqUnordered => ReplicateModel::SeqUnordered,
        }
    }
}

/// The models of a variable list, element by element.
pub open spec fn vars_model(vs: Seq<SparVar>) -> Seq<VarModel> {
    Seq::new(vs.len(), |i: int| vs[i]@)
}

impl View for SparAttrs {
    type V = AttrsModel;

    open spec fn view(&self) -> AttrsModel {
        AttrsModel {
            input: vars_model(self.input@),
            output: vars_model(self.output@),
            replicate: self.replicate@,
        }
    }
}

impl View for SparStage {
    type V = StageModel;

    open spec fn view(&self) -> StageModel {
        StageModel {
            attrs: self.attrs@,
            state: vars_model(self.state@),
            code: tokens_model(self.code@),
            id: self.id,
        }
    }
}

/// The models of a stage list, element by element.
pub open spec fn stages_model(ss: Seq<SparStage>) -> Seq<StageModel> {
    Seq::new(ss.len(), |i: int| ss[i]@)
}

impl View for SparStream {
    type V = StreamModel;

    open spec fn view(&self) -> StreamModel {
        StreamModel {
            attrs: self.attrs@,
            stages: stages_model(self.stages@),
            external_vars: vars_model(self.external_vars@),
        }
    }
}

impl SparVar {
    pub fn new(identifier: String, var_type: VarType) -> (r: Self)
        ensures
            r@ == (VarModel { identifier: identifier@, var_type: var_type@ }),
    {
        Self { identifier, var_type }
    }

    /// Whether the rendered type starts with the text `Vec`: such variables
    /// are the collection-typed ones that output promotion applies to.
    pub fn is_vec(&self) -> (r: bool)
        ensures
            r == is_vec_var(self@),
    {
        proof {
            lemma_tokens_model_len(self.var_type.0@);
        }
        if self.var_type.0.len() == 0 {
            return false;
        }
        proof {
            lemma_tokens_model_index(self.var_type.0@, 0);
        }
        match &self.var_type.0[0] {
            Token::Ident(s) => {
                let st = s.as_str();
                if st.unicode_len() < 3 {
                    false
                } else {
                    st.get_char(0) == 'V' && st.get_char(1) == 'e' && st.get_char(2) == 'c'
                }
            },
            _ => false,
        }
    }
}

/// Whether a variable's type text begins with the identifier prefix `Vec`.
pub open spec fn is_vec_var(v: VarModel) -> bool {
    &&& v.var_type.len() > 0
    &&& v.var_type[0] is Ident
    &&& v.var_type[0]->Ident_0.len() >= 3
    &&& v.var_type[0]->Ident_0[0] == 'V'
    &&& v.var_type[0]->Ident_0[1] == 'e'
    &&& v.var_type[0]->Ident_0[2] == 'c'
}

impl Replicate {
    /// Whether the stage runs as a single sequential node.
    pub fn is_sequential(&self) -> (r: bool)
        ensures
            r == (self@ is SeqOrdered || self@ is SeqUnordered),
    {
        matches!(self, Replicate::SeqOrdered | Replicate::SeqUnordered)
    }

    /// Whether the stage runs as a replicated node.
    pub fn is_replicate(&self) -> (r: bool)
        ensures
            r == (self@ is Lit || self@ is Var),
    {
        matches!(self, Replicate::Lit(_) | Replicate::Var(_))
    }
}

impl SparAttrs {
    pub fn new(input: Vec<SparVar>, output: Vec<SparVar>, replicate: Replicate) -> (r: Self)
        ensures
            r@ == (AttrsModel {
                input: vars_model(input@),
                output: vars_model(output@),
                replicate: replicate@,
            }),
    {
        Self { input, output, replicate }
    }
}

impl SparStage {
    pub fn new(attrs: SparAttrs, code: Vec<Token>, id: usize) -> (r: Self)
        ensures
            r@ == (StageModel {
                attrs: attrs@,
                state: Seq::empty(),
                code: tokens_model(code@),
                id,
            }),
    {
        let r = Self { attrs, state: Vec::new(), code, id };
        proof {
            assert(vars_model(r.state@) =~= Seq::<VarModel>::empty());
        }
        r
    }
}

/// Structural equality of two variables: same name and same type text.
pub fn var_eq(a: &SparVar, b: &SparVar) -> (r: bool)
    ensures
        r == (a@ == b@),
{
    a.identifier == b.identifier && tokens_eq(&a.var_type.0, &b.var_type.0)
}

/// Whether `x` occurs in the variable list `vs`.
pub fn vars_contains(vs: &Vec<SparVar>, x: &SparVar) -> (r: bool)
    ensures
        r == vars_model(vs@).contains(x@),
{
    let mut i: usize = 0;
    while i < vs.len()
        invariant
            i <= vs@.len(),
            forall|j: int| 0 <= j < i ==> vars_model(vs@)[j] != x@,
        decreases vs@.len() - i,
    {
        if var_eq(&vs[i], x) {
            proof {
                assert(vars_model(vs@)[i as int] == x@);
            }
            return true;
        }
        i = i + 1;
    }
    proof {
        assert forall|j: int| 0 <= j < vs@.len() implies vars_model(vs@)[j] != x@ by {}
    }
    false
}

/// Structural equality of two variable lists.
pub fn vars_eq(a: &Vec<SparVar>, b: &Vec<SparVar>) -> (r: bool)
    ensures
        r == (vars_model(a@) == vars_model(b@)),
{
    if a.len() != b.len() {
        proof {
            assert(vars_model(a@).len() == a@.len());
            assert(vars_model(b@).len() == b@.len());
        }
        return false;
    }
    let mut i: usize = 0;
    while i < a.len()
        invariant
            a@.len() == b@.len(),
            i <= a@.len(),
            forall|j: int| 0 <= j < i ==> vars_model(a@)[j] == vars_model(b@)[j],
        decreases a@.len() - i,
    {
        if !var_eq(&a[i], &b[i]) {
            proof {
                assert(vars_model(a@)[i as int] != vars_model(b@)[i as int]);
            }
            return false;
        }
        i = i + 1;
    }
    proof {
        assert(vars_model(a@) =~= vars_model(b@));
    }
    true
}

/// Structural equality of two replication policies.
pub fn replicate_eq(a: &Replicate, b: &Replicate) -> (r: bool)
    ensures
        r == (a@ == b@),
{
    match (a, b) {
        (Replicate::Lit(x), Replicate::Lit(y)) => *x == *y,
        (Replicate::Var(x), Replicate::Var(y)) => *x == *y,
        (Replicate::SeqOrdered, Replicate::SeqOrdered) => true,
        (Replicate::SeqUnordered, Replicate::SeqUnordered) => true,
        _ => false,
    }
}

/// Structural equality of two attribute sets.
pub fn attrs_eq(a: &SparAttrs, b: &SparAttrs) -> (r: bool)
    ensures
        r == (a@ == b@),
{
    let r = vars_eq(&a.input, &b.input) && vars_eq(&a.output, &b.output) && replicate_eq(
        &a.replicate,
        &b.replicate,
    );
    proof {
        if vars_model(a.input@) == vars_model(b.input@) && vars_model(a.output@) == vars_model(
            b.output@,
        ) && a.replicate@ == b.replicate@ {
            assert(a@ =~= b@);
        }
    }
    r
}

impl PartialEq for SparStage {
    /// Two stages are the same when their attributes and their bodies agree;
    /// the derived `state` and the position are not part of the comparison.
    fn eq(&self, other: &Self) -> (r: bool) {
        attrs_eq(&self.attrs, &other.attrs) && tokens_eq(&self.code, &other.code)
    }
}

impl vstd::std_specs::cmp::PartialEqSpecImpl for SparStage {
    open spec fn obeys_eq_spec() -> bool {
        true
    }

    open spec fn eq_spec(&self, other: &Self) -> bool {
        self@.attrs == other@.attrs && self@.code == other@.code
    }
}

/// A structural copy of a variable.
pub fn clone_var(v: &SparVar) -> (r: SparVar)
    ensures
        r@ == v@,
{
    SparVar { identifier: v.identifier.clone(), var_type: VarType(clone_tokens(&v.var_type.0)) }
}

/// A structural copy of a variable list.
pub fn clone_vars(vs: &Vec<SparVar>) -> (r: Vec<SparVar>)
    ensures
        vars_model(r@) == vars_model(vs@),
{
    let mut r: Vec<SparVar> = Vec::new();
    let mut i: usize = 0;
    while i < vs.len()
        invariant
            i <= vs@.len(),
            r@.len() == i,
            forall|j: int| 0 <= j < i ==> vars_model(r@)[j] == vars_model(vs@)[j],
        decreases vs@.len() - i,
    {
        r.push(clone_var(&vs[i]));
        i = i + 1;
    }
    proof {
        assert(vars_model(r@) =~= vars_model(vs@));
    }
    r
}

/// A structural copy of a replication policy.
pub fn clone_replicate(r: &Replicate) -> (out: Replicate)
    ensures
        out@ == r@,
{
    match r {
        Replicate::Lit(n) => Replicate::Lit(*n),
        Replicate::Var(s) => Replicate::Var(s.clone()),
        Replicate::SeqOrdered => Replicate::SeqOrdered,
        Replicate::SeqUnordered => Replicate::SeqUnordered,
    }
}

/// The first variable in `to_find` with the given name, if any.  Only the
/// name is compared; the variable keeps its declared type.
pub open spec fn first_with_ident(to_find: Seq<VarModel>, name: Seq<char>) -> Option<VarModel>
    decreases to_find.len(),
{
    if to_find.len() == 0 {
        None
    } else if to_find[0].identifier == name {
        Some(to_find[0])
    } else {
        first_with_ident(to_find.drop_first(), name)
    }
}

/// How many `mut` keywords stand at the front of the token sequence.
pub open spec fn count_muts(ts: Seq<TokenModel>) -> int
    decreases ts.len(),
{
    if ts.len() > 0 && ts[0] == TokenModel::Ident("mut"@) {
        1 + count_muts(ts.drop_first())
    } else {
        0
    }
}

pub proof fn lemma_count_muts(ts: Seq<TokenModel>)
    ensures
        0 <= count_muts(ts) <= ts.len(),
        forall|j: int| 0 <= j < count_muts(ts) ==> ts[j] == TokenModel::Ident("mut"@),
        count_muts(ts) < ts.len() ==> ts[count_muts(ts)] != TokenModel::Ident("mut"@),
    decreases ts.len(),
{
    if ts.len() > 0 && ts[0] == TokenModel::Ident("mut"@) {
        lemma_count_muts(ts.drop_first());
        assert forall|j: int| 0 <= j < count_muts(ts) implies ts[j] == TokenModel::Ident("mut"@)
            by {
            if j > 0 {
                assert(ts.drop_first()[j - 1] == ts[j]);
            }
        }
    }
}

/// The variables of `to_find` that the code binds by a simple `let` or
/// `let mut`, appended to `acc` in order of first occurrence.  The scan
/// descends into every group; bindings by tuple or struct patterns are not
/// recognized.  A nested group is scanned with an empty list of its own, so
/// only the bindings found at or after the group at its own level are
/// deduplicated against `acc`.
pub open spec fn find_vars_spec(
    ts: Seq<TokenModel>,
    to_find: Seq<VarModel>,
    acc: Seq<VarModel>,
) -> Seq<VarModel>
    decreases ts,
    via find_vars_spec_dec
{
    if ts.len() == 0 {
        acc
    } else {
        match ts[0] {
            TokenModel::Group(d, inner) => find_vars_spec(
                ts.skip(1),
                to_find,
                acc + find_vars_spec(inner, to_find, Seq::empty()),
            ),
            TokenModel::Ident(name) => if name == "let"@ {
                let j = 1 + count_muts(ts.skip(1));
                if j < ts.len() {
                    let acc2 = match ts[j] {
                        TokenModel::Ident(vn) => match first_with_ident(to_find, vn) {
                            Some(v) => if acc.contains(v) {
                                acc
                            } else {
                                acc.push(v)
                            },
                            None => acc,
                        },
                        _ => acc,
                    };
                    find_vars_spec(ts.skip(j + 1), to_find, acc2)
                } else {
                    acc
                }
            } else {
                find_vars_spec(ts.skip(1), to_find, acc)
            },
            _ => find_vars_spec(ts.skip(1), to_find, acc),
        }
    }
}

#[via_fn]
proof fn find_vars_spec_dec(ts: Seq<TokenModel>, to_find: Seq<VarModel>, acc: Seq<VarModel>) {
    if ts.len() > 0 {
        lemma_count_muts(ts.skip(1));
    }
}

/// The first variable of `to_find` whose name is `name`.
fn find_first_with_ident<'a>(to_find: &'a Vec<SparVar>, name: &String) -> (r: Option<&'a SparVar>)
    ensures
        match r {
            Some(v) => first_with_ident(vars_model(to_find@), name@) == Some(v@),
            None => first_with_ident(vars_model(to_find@), name@) is None,
        },
{
    let ghost vm = vars_model(to_find@);
    let mut k: usize = 0;
    proof {
        assert(vm.skip(0) =~= vm);
    }
    while k < to_find.len()
        invariant
            k <= to_find@.len(),
            vm == vars_model(to_find@),
            vm.len() == to_find@.len(),
            first_with_ident(vm, name@) == first_with_ident(vm.skip(k as int), name@),
        decreases to_find@.len() - k,
    {
        if crate::parse::str_is(&to_find[k].identifier, name.as_str()) {
            proof {
                assert(vm.skip(k as int)[0] == vm[k as int]);
            }
            return Some(&to_find[k]);
        }
        proof {
            assert(vm.skip(k as int)[0] == vm[k as int]);
            assert(vm.skip(k as int).drop_first() =~= vm.skip(k + 1));
        }
        k = k + 1;
    }
    proof {
        assert(vm.skip(k as int) =~= Seq::<VarModel>::empty());
    }
    None
}

/// Scans code for simple `let` bindings of the wanted variables, appending
/// each found variable to `vars` in order of first occurrence.
pub fn find_variables_in_code(
    toks: &Vec<Token>,
    i: usize,
    to_find: &Vec<SparVar>,
    vars: &mut Vec<SparVar>,
)
    requires
        i <= toks@.len(),
    ensures
        vars_model(final(vars)@) == find_vars_spec(
            tokens_model(toks@).skip(i as int),
            vars_model(to_find@),
            vars_model(old(vars)@),
        ),
    decreases toks@, toks@.len() - i,
{
    let ghost m = tokens_model(toks@);
    let ghost ts = m.skip(i as int);
    proof {
        lemma_tokens_model_len(toks@);
    }
    if i >= toks.len() {
        return ;
    }
    proof {
        lemma_tokens_model_index(toks@, i as int);
        assert(ts[0] == m[i as int]);
        assert(ts.skip(1) =~= m.skip(i + 1));
    }
    match &toks[i] {
        Token::Group(_, inner) => {
            proof {
                assert(decreases_to!(toks@ => toks@[i as int]));
                assert(decreases_to!(toks@[i as int] => inner@));
            }
            let mut inner_vars: Vec<SparVar> = Vec::new();
            proof {
                assert(vars_model(inner_vars@) =~= Seq::<VarModel>::empty());
                assert(tokens_model(inner@).skip(0) =~= tokens_model(inner@));
            }
            find_variables_in_code(inner, 0, to_find, &mut inner_vars);
            let ghost before = vars@;
            let ghost inner_s = inner_vars@;
            vars.append(&mut inner_vars);
            proof {
                assert(vars_model(vars@) =~= vars_model(before) + vars_model(inner_s));
            }
            find_variables_in_code(toks, i + 1, to_find, vars);
        },
        Token::Ident(name) => {
            if crate::parse::str_is(name, "let") {
                let mut j = i + 1;
                while j < toks.len() && is_mut_tok(&toks[j])
                    invariant
                        i + 1 <= j <= toks@.len(),
                        m == tokens_model(toks@),
                        m.len() == toks@.len(),
                        forall|k: int| i + 1 <= k < j ==> m[k] == TokenModel::Ident("mut"@),
                    decreases toks@.len() - j,
                {
                    proof {
                        lemma_tokens_model_index(toks@, j as int);
                    }
                    j = j + 1;
                }
                proof {
                    if j < toks@.len() {
                        lemma_tokens_model_index(toks@, j as int);
                    }
                    lemma_count_muts(ts.skip(1));
                    let c = count_muts(ts.skip(1));
                    assert forall|k: int| 0 <= k < j - i - 1 implies ts.skip(1)[k]
                        == TokenModel::Ident("mut"@) by {
                        assert(ts.skip(1)[k] == m[i + 1 + k]);
                    }
                    if j < toks@.len() {
                        assert(ts.skip(1)[j - i - 1] == m[j as int]);
                        if c < j - i - 1 {
                            assert(m[i + 1 + c] == TokenModel::Ident("mut"@));
                        }
                        assert(c == j - i - 1);
                    } else {
                        assert(c == j - i - 1);
                    }
                    assert(1 + c == j - i);
                }
                if j >= toks.len() {
                    return ;
                }
                proof {
                    lemma_tokens_model_index(toks@, j as int);
                    assert(ts[j - i] == m[j as int]);
                }
                match &toks[j] {
                    Token::Ident(vn) => {
                        match find_first_with_ident(to_find, vn) {
                            Some(v) => {
                                if !vars_contains(vars, v) {
                                    let cv = clone_var(v);
                                    let ghost before = vars@;
                                    vars.push(cv);
                                    proof {
                                        assert(vars_model(vars@) =~= vars_model(before).push(v@));
                                    }
                                }
                            },
                            None => {},
                        }
                    },
                    _ => {},
                }
                proof {
                    assert(ts.skip(j - i + 1) =~= m.skip(j + 1));
                }
                find_variables_in_code(toks, j + 1, to_find, vars);
            } else {
                find_variables_in_code(toks, i + 1, to_find, vars);
            }
        },
        _ => {
            find_variables_in_code(toks, i + 1, to_find, vars);
        },
    }
}

/// Whether the token is the `mut` keyword.
fn is_mut_tok(t: &Token) -> (r: bool)
    ensures
        r == (crate::tokens::token_model(*t) == TokenModel::Ident("mut"@)),
{
    match t {
        Token::Ident(s) => crate::parse::str_is(s, "mut"),
        _ => false,
    }
}

/// A structural copy of an attribute set.
pub fn clone_attrs(a: &SparAttrs) -> (r: SparAttrs)
    ensures
        r@ == a@,
{
    let r = SparAttrs {
        input: clone_vars(&a.input),
        output: clone_vars(&a.output),
        replicate: clone_replicate(&a.replicate),
    };
    proof {
        assert(r@ =~= a@);
    }
    r
}

/// Whether a variable is among the previous stage's declared outputs.
pub open spec fn sent_by(prev_out: Seq<VarModel>) -> spec_fn(VarModel) -> bool {
    |v: VarModel| prev_out.contains(v)
}

/// Whether a variable is missing from the previous stage's declared outputs.
pub open spec fn not_sent_by(prev_out: Seq<VarModel>) -> spec_fn(VarModel) -> bool {
    |v: VarModel| !prev_out.contains(v)
}

/// Whether a state variable of the last stage is promoted to an output: it
/// must be external and collection-typed.
pub open spec fn promotable(ext: Seq<VarModel>) -> spec_fn(VarModel) -> bool {
    |v: VarModel| ext.contains(v) && is_vec_var(v)
}

/// The stage models of a parsed stage list: stage `k` carries id `k + 1` and
/// no state.
pub open spec fn numbered_stages(parts: Seq<crate::parse::StagePartModel>) -> Seq<StageModel> {
    Seq::new(
        parts.len(),
        |k: int|
            StageModel {
                attrs: parts[k].attrs,
                state: Seq::empty(),
                code: parts[k].code,
                id: (k + 1) as usize,
            },
    )
}

/// The synthetic stage built from non-empty driver code: it takes the
/// stream's own attributes, with its output inferred from the `let`
/// bindings that the next stage's declared inputs can consume.
pub open spec fn synth_stage0(
    attrs0: AttrsModel,
    driver: Seq<TokenModel>,
    stages1: Seq<StageModel>,
) -> StageModel {
    StageModel {
        attrs: AttrsModel {
            input: attrs0.input,
            output: if stages1.len() > 0 {
                find_vars_spec(driver, stages1[0].attrs.input, Seq::empty())
            } else {
                attrs0.output
            },
            replicate: attrs0.replicate,
        },
        state: Seq::empty(),
        code: driver,
        id: 0,
    }
}

/// Stage `k` after dependency resolution: its declared inputs that the
/// previous stage's declared outputs supply remain inputs; the rest become
/// state.  The first stage is untouched.
pub open spec fn resolved_stage(stages: Seq<StageModel>, k: int) -> StageModel {
    if k == 0 {
        stages[0]
    } else {
        let prev_out = stages[k - 1].attrs.output;
        let st = stages[k];
        StageModel {
            attrs: AttrsModel {
                input: st.attrs.input.filter(sent_by(prev_out)),
                output: st.attrs.output,
                replicate: st.attrs.replicate,
            },
            state: st.attrs.input.filter(not_sent_by(prev_out)),
            code: st.code,
            id: st.id,
        }
    }
}

/// All stages after dependency resolution.
pub open spec fn resolve_states(stages: Seq<StageModel>) -> Seq<StageModel> {
    Seq::new(stages.len(), |k: int| resolved_stage(stages, k))
}

/// Whether some stage holds a state variable that is not a stream input:
/// such a stream is ill-formed.
pub open spec fn untraceable(stages: Seq<StageModel>, inputs: Seq<VarModel>) -> bool {
    exists|k: int, j: int|
        #![trigger stages[k].state[j]]
        0 <= k < stages.len() && 0 <= j < stages[k].state.len() && !inputs.contains(
            stages[k].state[j],
        )
}

/// The state variables of all stages, in stage order.
pub open spec fn all_states(stages: Seq<StageModel>) -> Seq<VarModel>
    decreases stages.len(),
{
    if stages.len() == 0 {
        Seq::empty()
    } else {
        all_states(stages.drop_last()) + stages.last().state
    }
}

/// `acc` extended by each variable of `vs` in order, skipping those already
/// present.
pub open spec fn add_externals(acc: Seq<VarModel>, vs: Seq<VarModel>) -> Seq<VarModel>
    decreases vs.len(),
{
    if vs.len() == 0 {
        acc
    } else {
        add_externals(
            if acc.contains(vs[0]) {
                acc
            } else {
                acc.push(vs[0])
            },
            vs.drop_first(),
        )
    }
}

pub proof fn lemma_add_externals_concat(acc: Seq<VarModel>, a: Seq<VarModel>, b: Seq<VarModel>)
    ensures
        add_externals(acc, a + b) == add_externals(add_externals(acc, a), b),
    decreases a.len(),
{
    if a.len() == 0 {
        assert(a + b =~= b);
    } else {
        let acc2 = if acc.contains(a[0]) {
            acc
        } else {
            acc.push(a[0])
        };
        assert((a + b)[0] == a[0]);
        assert((a + b).drop_first() =~= a.drop_first() + b);
        lemma_add_externals_concat(acc2, a.drop_first(), b);
    }
}

/// The last stage and the stream after output promotion: every state
/// variable of the last stage that is external and collection-typed is
/// appended to both output lists.
pub open spec fn promote(
    stages: Seq<StageModel>,
    ext: Seq<VarModel>,
    attrs0: AttrsModel,
) -> (Seq<StageModel>, AttrsModel) {
    if stages.len() == 0 {
        (stages, attrs0)
    } else {
        let last = stages.last();
        let promoted = last.state.filter(promotable(ext));
        (
            stages.update(
                stages.len() - 1,
                StageModel {
                    attrs: AttrsModel {
                        input: last.attrs.input,
                        output: last.attrs.output + promoted,
                        replicate: last.attrs.replicate,
                    },
                    ..last
                },
            ),
            AttrsModel {
                input: attrs0.input,
                output: attrs0.output + promoted,
                replicate: attrs0.replicate,
            },
        )
    }
}

/// What building a stream from a whole description denotes: attribute
/// parsing, stage splitting, the synthetic driver stage, dependency
/// resolution, the traceability check, and output promotion.
pub open spec fn build_stream(ts: Seq<TokenModel>) -> Option<StreamModel> {
    match crate::parse::parse_args(ts) {
        None => None,
        Some((attrs0, body)) => match crate::parse::split_stages(body) {
            None => None,
            Some((parts, driver)) => {
                let stages1 = numbered_stages(parts);
                let stages2 = if driver.len() > 0 {
                    seq![synth_stage0(attrs0, driver, stages1)] + stages1
                } else {
                    stages1
                };
                let stages3 = resolve_states(stages2);
                if untraceable(stages3, attrs0.input) {
                    None
                } else {
                    let ext = add_externals(attrs0.input, all_states(stages3));
                    let (stages4, attrs1) = promote(stages3, ext, attrs0);
                    Some(StreamModel { attrs: attrs1, stages: stages4, external_vars: ext })
                }
            },
        },
    }
}

pub proof fn lemma_add_externals_push(acc: Seq<VarModel>, vs: Seq<VarModel>, v: VarModel)
    ensures
        add_externals(acc, vs.push(v)) == (if add_externals(acc, vs).contains(v) {
            add_externals(acc, vs)
        } else {
            add_externals(acc, vs).push(v)
        }),
{
    lemma_add_externals_concat(acc, vs, seq![v]);
    assert(vs.push(v) =~= vs + seq![v]);
    let a = add_externals(acc, vs);
    let acc2 = if a.contains(v) {
        a
    } else {
        a.push(v)
    };
    assert(seq![v].drop_first() =~= Seq::<VarModel>::empty());
    assert(add_externals(a, seq![v]) == add_externals(acc2, seq![v].drop_first()));
    assert(add_externals(acc2, Seq::<VarModel>::empty()) == acc2);
}

impl SparStream {
    /// Builds a resolved stream from the raw tokens of one whole
    /// description: parses the stream attributes and body, splits the body
    /// into driver code and stages, wraps non-empty driver code into a
    /// synthetic first stage, resolves pipeline-carried inputs against state,
    /// checks that every state variable traces to a stream input, and
    /// promotes qualifying final-stage state to stream outputs.
    #[verifier::rlimit(100)]
    #[verifier::loop_isolation(false)]
    pub fn try_from(value: &Vec<Token>) -> (r: Result<SparStream, SparError>)
        ensures
            match r {
                Ok(s) => build_stream(tokens_model(value@)) == Some(s@),
                Err(_) => build_stream(tokens_model(value@)) is None,
            },
    {
        let ghost ts = tokens_model(value@);
        let (mut attrs, block) = match crate::parse::parse_attr_list(value) {
            Ok(p) => p,
            Err(e) => {
                return Err(e);
            },
        };
        let ghost attrs0 = attrs@;
        let ghost body = tokens_model(block@);
        let (mut stages, code) = match crate::parse::parse_spar_stages(&block) {
            Ok(p) => p,
            Err(e) => {
                return Err(e);
            },
        };
        let ghost parts = crate::parse::stage_parts(stages@);
        let ghost driver = tokens_model(code@);
        let ghost stages1 = numbered_stages(parts);
        proof {
            assert(stages1 =~= stages_model(stages@));
        }
        if code.len() > 0 {
            proof {
                crate::tokens::lemma_tokens_model_len(code@);
            }
            let output: Vec<SparVar>;
            if stages.len() > 0 {
                let mut found: Vec<SparVar> = Vec::new();
                proof {
                    assert(vars_model(found@) =~= Seq::<VarModel>::empty());
                    assert(tokens_model(code@).skip(0) =~= tokens_model(code@));
                }
                find_variables_in_code(&code, 0, &stages[0].attrs.input, &mut found);
                proof {
                    assert(vars_model(stages[0].attrs.input@) == stages1[0].attrs.input);
                }
                output = found;
            } else {
                output = clone_vars(&attrs.output);
            }
            let mut st_attrs = clone_attrs(&attrs);
            st_attrs.output = output;
            let stage0 = SparStage::new(st_attrs, code, 0);
            proof {
                assert(stage0@ =~= synth_stage0(attrs0, driver, stages1));
            }
            let ghost before_insert = stages@;
            stages.insert(0, stage0);
            proof {
                assert(stages_model(stages@) =~= seq![synth_stage0(attrs0, driver, stages1)]
                    + stages_model(before_insert));
            }
        }
        let ghost s2 = stages_model(stages@);
        proof {
            if driver.len() > 0 {
                assert(s2 == seq![synth_stage0(attrs0, driver, stages1)] + stages1);
            } else {
                assert(s2 == stages1);
            }
        }
        // dependency resolution: each stage's inputs that the previous
        // stage's declared outputs do not supply become state
        let mut resolved: Vec<SparStage> = Vec::new();
        let mut k: usize = 0;
        proof {
            assert(stages_model(resolved@) =~= Seq::<StageModel>::empty());
        }
        while k < stages.len()
            invariant
                k <= stages@.len(),
                s2 == stages_model(stages@),
                s2.len() == stages@.len(),
                stages_model(resolved@).len() == k,
                forall|j: int|
                    0 <= j < k ==> #[trigger] stages_model(resolved@)[j] == resolved_stage(s2, j),
            decreases stages@.len() - k,
        {
            let ghost before = resolved@;
            if k == 0 {
                resolved.push(clone_stage(&stages[0]));
            } else {
                let (keep, state) = partition_vars(
                    &stages[k].attrs.input,
                    &stages[k - 1].attrs.output,
                );
                let st = SparStage {
                    attrs: SparAttrs {
                        input: keep,
                        output: clone_vars(&stages[k].attrs.output),
                        replicate: clone_replicate(&stages[k].attrs.replicate),
                    },
                    state,
                    code: clone_tokens(&stages[k].code),
                    id: stages[k].id,
                };
                proof {
                    assert(st@ =~= resolved_stage(s2, k as int));
                }
                resolved.push(st);
            }
            proof {
                assert forall|j: int|
                    0 <= j < k + 1 implies #[trigger] stages_model(resolved@)[j] == resolved_stage(
                    s2,
                    j,
                ) by {
                    if j < k {
                        assert(stages_model(resolved@)[j] == stages_model(before)[j]);
                    }
                }
            }
            k = k + 1;
        }
        let ghost s3 = resolve_states(s2);
        proof {
            assert(stages_model(resolved@) =~= s3);
        }
        // every state variable must trace to a stream input; collect the
        // external variables while checking
        let mut external_vars = clone_vars(&attrs.input);
        let ghost inm = vars_model(attrs.input@);
        proof {
            assert(inm == attrs0.input);
            assert(all_states(s3.take(0)) =~= Seq::<VarModel>::empty());
        }
        let mut si: usize = 0;
        while si < resolved.len()
            invariant
                si <= resolved@.len(),
                s3 == stages_model(resolved@),
                s3.len() == resolved@.len(),
                inm == vars_model(attrs.input@),
                inm == attrs0.input,
                vars_model(external_vars@) == add_externals(inm, all_states(s3.take(si as int))),
                forall|k2: int, j2: int|
                    #![trigger s3[k2].state[j2]]
                    0 <= k2 < si && 0 <= j2 < s3[k2].state.len() ==> inm.contains(s3[k2].state[j2]),
            decreases resolved@.len() - si,
        {
            let ghost acc0 = add_externals(inm, all_states(s3.take(si as int)));
            let mut j: usize = 0;
            proof {
                assert(s3[si as int].state.take(0) =~= Seq::<VarModel>::empty());
            }
            while j < resolved[si].state.len()
                invariant
                    si < resolved@.len(),
                    s3 == stages_model(resolved@),
                    s3.len() == resolved@.len(),
                    inm == vars_model(attrs.input@),
                    inm == attrs0.input,
                    j <= s3[si as int].state.len(),
                    s3[si as int].state.len() == resolved@[si as int].state@.len(),
                    acc0 == add_externals(inm, all_states(s3.take(si as int))),
                    vars_model(external_vars@) == add_externals(
                        acc0,
                        s3[si as int].state.take(j as int),
                    ),
                    forall|k2: int, j2: int|
                        #![trigger s3[k2].state[j2]]
                        0 <= k2 < si && 0 <= j2 < s3[k2].state.len() ==> inm.contains(
                            s3[k2].state[j2],
                        ),
                    forall|j2: int|
                        0 <= j2 < j ==> inm.contains(#[trigger] s3[si as int].state[j2]),
                decreases resolved@[si as int].state@.len() - j,
            {
                proof {
                    assert(s3[si as int].state[j as int] == resolved@[si as int].state@[j as int]@);
                }
                let traceable = vars_contains(&attrs.input, &resolved[si].state[j]);
                if !traceable {
                    proof {
                        assert(!inm.contains(s3[si as int].state[j as int]));
                        assert(untraceable(s3, attrs0.input));
                    }
                    return Err(
                        crate::parse::SparError::new(
                            "every stage input must either be sent from the previous stage, or be a stream input",
                            si,
                        ),
                    );
                }
                let ghost evm = vars_model(external_vars@);
                let present = vars_contains(&external_vars, &resolved[si].state[j]);
                if !present {
                    let ghost prev = external_vars@;
                    external_vars.push(clone_var(&resolved[si].state[j]));
                    proof {
                        assert(vars_model(external_vars@) =~= vars_model(prev).push(
                            s3[si as int].state[j as int],
                        ));
                    }
                }
                proof {
                    lemma_add_externals_push(
                        acc0,
                        s3[si as int].state.take(j as int),
                        s3[si as int].state[j as int],
                    );
                    assert(s3[si as int].state.take(j + 1) =~= s3[si as int].state.take(
                        j as int,
                    ).push(s3[si as int].state[j as int]));
                }
                j = j + 1;
            }
            proof {
                assert(s3[si as int].state.take(s3[si as int].state.len() as int) =~= s3[si
                    as int].state);
                assert(s3.take(si + 1).drop_last() =~= s3.take(si as int));
                assert(s3.take(si + 1).last() == s3[si as int]);
                lemma_add_externals_concat(inm, all_states(s3.take(si as int)), s3[si as int].state);
                assert(all_states(s3.take(si + 1)) == all_states(s3.take(si as int)) + s3[si
                    as int].state);
            }
            si = si + 1;
        }
        proof {
            assert(s3.take(s3.len() as int) =~= s3);
        }
        let ghost ext = add_externals(attrs0.input, all_states(s3));
        proof {
            assert(vars_model(external_vars@) == ext);
            assert(!untraceable(s3, attrs0.input));
        }
        // promote qualifying final-stage state to outputs
        if resolved.len() > 0 {
            let last_i = resolved.len() - 1;
            let promoted = promoted_of(&resolved[last_i].state, &external_vars);
            proof {
                assert(s3[last_i as int].state == vars_model(resolved@[last_i as int].state@));
                assert(s3.last() == s3[last_i as int]);
            }
            let mut promoted_for_stream = clone_vars(&promoted);
            let ghost pm = vars_model(promoted@);
            match resolved.pop() {
                Some(mut lastst) => {
                    let ghost lm = lastst@;
                    let ghost before_out = vars_model(lastst.attrs.output@);
                    let mut pr = promoted;
                    lastst.attrs.output.append(&mut pr);
                    proof {
                        assert(vars_model(lastst.attrs.output@) =~= before_out + pm);
                        assert(lastst@ =~= (StageModel {
                            attrs: AttrsModel {
                                input: lm.attrs.input,
                                output: lm.attrs.output + s3.last().state.filter(
                                    promotable(ext),
                                ),
                                replicate: lm.attrs.replicate,
                            },
                            ..lm
                        }));
                    }
                    let ghost popped = resolved@;
                    resolved.push(lastst);
                    proof {
                        assert(stages_model(resolved@) =~= promote(s3, ext, attrs0).0);
                    }
                },
                None => {
                    proof {
                        assert(false);
                    }
                },
            }
            let ghost before_sout = vars_model(attrs.output@);
            attrs.output.append(&mut promoted_for_stream);
            proof {
                assert(vars_model(attrs.output@) =~= before_sout + pm);
                assert(attrs@ =~= promote(s3, ext, attrs0).1);
            }
        }
        let stream = SparStream { attrs, stages: resolved, external_vars };
        proof {
            assert(stream@ =~= (StreamModel {
                attrs: promote(s3, ext, attrs0).1,
                stages: promote(s3, ext, attrs0).0,
                external_vars: ext,
            }));
            assert(build_stream(ts) == Some(stream@));
        }
        Ok(stream)
    }

    /// Whether the given variable is traceable to the stream's own inputs.
    pub fn is_external(&self, var: &SparVar) -> (r: bool)
        ensures
            r == vars_model(self.external_vars@).contains(var@),
    {
        vars_contains(&self.external_vars, var)
    }
}

/// A structural copy of a stage.
pub fn clone_stage(s: &SparStage) -> (r: SparStage)
    ensures
        r@ == s@,
{
    let r = SparStage {
        attrs: clone_attrs(&s.attrs),
        state: clone_vars(&s.state),
        code: clone_tokens(&s.code),
        id: s.id,
    };
    proof {
        assert(r@ =~= s@);
    }
    r
}

/// Splits a declared input list by whether the previous stage's declared
/// outputs supply each variable.
fn partition_vars(input: &Vec<SparVar>, prev_out: &Vec<SparVar>) -> (r: (
    Vec<SparVar>,
    Vec<SparVar>,
))
    ensures
        vars_model(r.0@) == vars_model(input@).filter(sent_by(vars_model(prev_out@))),
        vars_model(r.1@) == vars_model(input@).filter(not_sent_by(vars_model(prev_out@))),
{
    let ghost im = vars_model(input@);
    let ghost pm = vars_model(prev_out@);
    let mut keep: Vec<SparVar> = Vec::new();
    let mut state: Vec<SparVar> = Vec::new();
    let mut k: usize = 0;
    proof {
        reveal(Seq::filter);
        assert(im.take(0) =~= Seq::<VarModel>::empty());
        assert(vars_model(keep@) =~= im.take(0).filter(sent_by(pm)));
        assert(vars_model(state@) =~= im.take(0).filter(not_sent_by(pm)));
    }
    while k < input.len()
        invariant
            k <= input@.len(),
            im == vars_model(input@),
            pm == vars_model(prev_out@),
            im.len() == input@.len(),
            vars_model(keep@) == im.take(k as int).filter(sent_by(pm)),
            vars_model(state@) == im.take(k as int).filter(not_sent_by(pm)),
        decreases input@.len() - k,
    {
        let sent = vars_contains(prev_out, &input[k]);
        proof {
            reveal(Seq::filter);
            assert(im.take(k + 1).drop_last() =~= im.take(k as int));
            assert(im.take(k + 1).last() == im[k as int]);
        }
        if sent {
            let ghost prev = keep@;
            keep.push(clone_var(&input[k]));
            proof {
                assert(vars_model(keep@) =~= vars_model(prev).push(im[k as int]));
            }
        } else {
            let ghost prev = state@;
            state.push(clone_var(&input[k]));
            proof {
                assert(vars_model(state@) =~= vars_model(prev).push(im[k as int]));
            }
        }
        k = k + 1;
    }
    proof {
        assert(im.take(input@.len() as int) =~= im);
    }
    (keep, state)
}

/// The state variables of the last stage that output promotion selects.
fn promoted_of(state: &Vec<SparVar>, ext: &Vec<SparVar>) -> (r: Vec<SparVar>)
    ensures
        vars_model(r@) == vars_model(state@).filter(promotable(vars_model(ext@))),
{
    let ghost sm = vars_model(state@);
    let ghost em = vars_model(ext@);
    let mut out: Vec<SparVar> = Vec::new();
    let mut k: usize = 0;
    proof {
        reveal(Seq::filter);
        assert(sm.take(0) =~= Seq::<VarModel>::empty());
        assert(vars_model(out@) =~= sm.take(0).filter(promotable(em)));
    }
    while k < state.len()
        invariant
            k <= state@.len(),
            sm == vars_model(state@),
            em == vars_model(ext@),
            sm.len() == state@.len(),
            vars_model(out@) == sm.take(k as int).filter(promotable(em)),
        decreases state@.len() - k,
    {
        let take_it = vars_contains(ext, &state[k]) && state[k].is_vec();
        proof {
            reveal(Seq::filter);
            assert(sm.take(k + 1).drop_last() =~= sm.take(k as int));
            assert(sm.take(k + 1).last() == sm[k as int]);
        }
        if take_it {
            let ghost prev = out@;
            out.push(clone_var(&state[k]));
            proof {
                assert(vars_model(out@) =~= vars_model(prev).push(sm[k as int]));
            }
        }
        k = k + 1;
    }
    proof {
        assert(sm.take(state@.len() as int) =~= sm);
    }
    out
}

} // verus!
