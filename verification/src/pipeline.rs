//! From the source of a model, or from its tree, to its linear model: the
//! source is parsed, the tree is checked and expanded, what comes out is
//! brought into linear form, and every variable is given the domain that it
//! was declared with.
use vstd::prelude::*;
use vstd::string::*;
use crate::error::{CompilationError, CompilationErrorView, ErrorView, TransformError};
use crate::math::VariableDomain;
use crate::text::same_text;
use crate::parser::grammar::{parsed, PreModelView};
use crate::parser::pre_exp::{DomainVariable, PreProblem};
use crate::parser::reader::{parse, PreModel};
use crate::parser::transformer::{
    constant_entries, constants_frame, problem_of, transform_parsed_problem,
};

use crate::transformers::linear_model::LinearModel;
use crate::transformers::linearizer::{
    is_linear_model_of, linearization_error, linearize, LinearizationError,
};
use crate::type_checker::checker::{problem_checked, type_check_problem};

verus! {

/// Why a model was not compiled.
#[derive(Debug)]
pub enum CompileError {
    /// The source is not a model of the language.
    Parse(CompilationError),
    /// The model did not pass the check of its kinds.
    TypeCheck(TransformError),
    /// The model could not be expanded.
    Transform(TransformError),
    /// The expanded model is not linear.
    Linearization(LinearizationError),
}

/// What the tree of a model expands to in the scope of its constants.
pub open spec fn expanded(problem: PreProblem) -> Result<
    crate::parser::transformer::ProblemView,
    ErrorView,
> {
    problem_of(problem, seq![constants_frame(constant_entries(problem.constants@))])
}

/// The name `stem`, followed by `_`, begins the name `name`.
pub open spec fn is_stem_of(stem: Seq<char>, name: Seq<char>) -> bool {
    &&& stem.len() < name.len()
    &&& name[stem.len() as int] == '_'
    &&& forall|j: int| 0 <= j < stem.len() ==> name[j] == stem[j]
}

/// The first declaration, from `from` on, of the name `name`.
pub open spec fn first_named(variables: Seq<DomainVariable>, name: Seq<char>, from: int) -> Option<
    int,
>
    decreases variables.len() - from,
{
    if from < 0 || from >= variables.len() {
        None
    } else if variables[from].name.value@ == name {
        Some(from)
    } else {
        first_named(variables, name, from + 1)
    }
}

/// Among the first `upto` declarations, the one of the longest name that
/// is a stem of `name`; the first of them where several are as long.
pub open spec fn longest_stem(variables: Seq<DomainVariable>, name: Seq<char>, upto: int) -> Option<
    int,
>
    decreases upto,
{
    if upto <= 0 || upto > variables.len() {
        None
    } else {
        let last = variables[upto - 1].name.value@;
        match longest_stem(variables, name, upto - 1) {
            None => if is_stem_of(last, name) {
                Some(upto - 1)
            } else {
                None
            },
            Some(p) => if is_stem_of(last, name) && last.len() > variables[p].name.value@.len() {
                Some(upto - 1)
            } else {
                Some(p)
            },
        }
    }
}

/// The domain of the variable `name` of a model with the declarations
/// `variables`: that of the first declaration of the name; where there is
/// none, that of the declaration of its longest stem, as for the variables
/// that a compound name stands for; and where there is none, the real
/// numbers that are not below zero.
pub open spec fn domain_of(variables: Seq<DomainVariable>, name: Seq<char>) -> VariableDomain {
    match first_named(variables, name, 0) {
        Some(p) => variables[p].domain,
        None => match longest_stem(variables, name, variables.len() as int) {
            Some(p) => variables[p].domain,
            None => VariableDomain::NonNegativeReal,
        },
    }
}

/// The domains of the variables `names`.
pub open spec fn domains_of(variables: Seq<DomainVariable>, names: Seq<Seq<char>>) -> Seq<
    VariableDomain,
> {
    Seq::new(names.len(), |i: int| domain_of(variables, names[i]))
}

/// Whether `stem`, followed by `_`, begins `name`.
pub fn begins_with_stem(stem: &str, name: &str) -> (r: bool)
    ensures
        r == is_stem_of(stem@, name@),
{
    let n = stem.unicode_len();
    let m = name.unicode_len();
    if m <= n {
        return false;
    }
    let mut i: usize = 0;
    while i < n
        invariant
            i <= n,
            n == stem@.len(),
            n < name@.len(),
            forall|j: int| 0 <= j < i ==> name@[j] == stem@[j],
        decreases n - i,
    {
        if stem.get_char(i) != name.get_char(i) {
            return false;
        }
        i = i + 1;
    }
    name.get_char(n) == '_'
}

/// The domain of the variable `name`.
pub fn find_domain(variables: &Vec<DomainVariable>, name: &str) -> (r: VariableDomain)
    ensures
        r == domain_of(variables@, name@),
{
    let mut i: usize = 0;
    while i < variables.len()
        invariant
            i <= variables.len(),
            first_named(variables@, name@, 0) == first_named(variables@, name@, i as int),
        decreases variables.len() - i,
    {
        if same_text(variables[i].name.value.as_str(), name) {
            return variables[i].domain;
        }
        i = i + 1;
    }
    let mut best: Option<usize> = None;
    let mut longest: usize = 0;
    let mut k: usize = 0;
    while k < variables.len()
        invariant
            k <= variables.len(),
            match best {
                Some(p) => longest_stem(variables@, name@, k as int) == Some(p as int) && p < k
                    && longest == variables[p as int].name.value@.len(),
                None => longest_stem(variables@, name@, k as int) is None,
            },
        decreases variables.len() - k,
    {
        let declared = variables[k].name.value.as_str();
        if begins_with_stem(declared, name) {
            let length = declared.unicode_len();
            if best.is_none() || length > longest {
                best = Some(k);
                longest = length;
            }
        }
        k = k + 1;
    }
    match best {
        Some(p) => variables[p].domain,
        None => VariableDomain::NonNegativeReal,
    }
}

/// The domains of the variables `names`.
pub fn find_domains(variables: &Vec<DomainVariable>, names: &Vec<String>) -> (r: Vec<
    VariableDomain,
>)
    ensures
        r@ == domains_of(variables@, names.deep_view()),
{
    let mut out: Vec<VariableDomain> = Vec::new();
    let mut i: usize = 0;
    while i < names.len()
        invariant
            i <= names.len(),
            out.len() == i,
            forall|j: int|
                0 <= j < i ==> (#[trigger] out[j]) == domain_of(variables@, names[j]@),
        decreases names.len() - i,
    {
        out.push(find_domain(variables, names[i].as_str()));
        i = i + 1;
    }
    assert(out@ =~= domains_of(variables@, names.deep_view()));
    out
}

/// `r` is what compiling the tree `problem` with the variables `variables`
/// gives: the linear model of what the tree expands to, each of its
/// variables with the domain that it was declared with, or the error of the
/// first step that fails.
pub open spec fn compiled(
    problem: PreProblem,
    variables: Seq<DomainVariable>,
    r: Result<LinearModel, CompileError>,
) -> bool {
    match r {
        Ok(model) => {
            &&& problem_checked(problem, variables) is Ok
            &&& expanded(problem) is Ok
            &&& model.well_formed()
            &&& model.fits_variables()
            &&& is_linear_model_of(&model, expanded(problem)->Ok_0)
            &&& model.domain@ == domains_of(variables, model.variables.deep_view())
        },
        Err(CompileError::Parse(_)) => false,
        Err(CompileError::TypeCheck(e)) => problem_checked(problem, variables) == Err::<
            (),
            ErrorView,
        >(e@),
        Err(CompileError::Transform(e)) => problem_checked(problem, variables) is Ok && expanded(
            problem,
        ) == Err::<crate::parser::transformer::ProblemView, ErrorView>(e@),
        Err(CompileError::Linearization(e)) => problem_checked(problem, variables) is Ok
            && expanded(problem) is Ok && linearization_error(expanded(problem)->Ok_0) == Some(
            e@,
        ),
    }
}

/// The linear model of the tree of a model whose variables are `variables`:
/// the model is checked, then expanded, then brought into linear form, and
/// the error is that of the first of these steps that fails.
pub fn compile(problem: &PreProblem, variables: &Vec<DomainVariable>) -> (r: Result<
    LinearModel,
    CompileError,
>)
    ensures
        compiled(*problem, variables@, r),
{
    match type_check_problem(problem, variables) {
        Ok(_) => {},
        Err(e) => {
            return Err(CompileError::TypeCheck(e));
        },
    }
    let expanded = match transform_parsed_problem(problem) {
        Ok(p) => p,
        Err(e) => {
            return Err(CompileError::Transform(e));
        },
    };
    match linearize(&expanded) {
        Ok(model) => {
            let domains = find_domains(variables, model.get_variables());
            Ok(model.with_domain(domains))
        },
        Err(e) => Err(CompileError::Linearization(e)),
    }
}

/// The linear model of a source text: the text is parsed, and the tree that
/// it writes is compiled with the variables that it declares. A text that
/// is no model of the language gives the parser's error.
pub fn compile_source(source: &str) -> (r: Result<LinearModel, CompileError>)
    ensures
        match r {
            Err(CompileError::Parse(e)) => parsed(source.spec_bytes()) == Err::<
                PreModelView,
                CompilationErrorView,
            >(e@),
            _ => exists|model: PreModel|
                parsed(source.spec_bytes()) == Ok::<PreModelView, CompilationErrorView>(model@)
                    && #[trigger] compiled(model.problem, model.domains@, r),
        },
{
    match parse(source) {
        Err(e) => Err(CompileError::Parse(e)),
        Ok(model) => {
            let r = compile(&model.problem, &model.domains);
            assert(compiled(model.problem, model.domains@, r));
            r
        },
    }
}

} // verus!
