//! The abstract syntax tree: what the parser produces.
//!
//! The tree is plain data. Every name in it is a piece of the source text,
//! borrowed and never copied, so the source outlives the tree. Each type has
//! a mathematical model, its view, in which a name is a sequence of
//! characters; the contracts of the parser speak of these views.

use vstd::prelude::*;

verus! {

/// What is known of every module.
#[derive(Debug, PartialEq)]
pub struct ModuleHeader {
    /// The name of the module.
    pub name: String,
    /// The imports of the module, which are not worked out yet.
    pub imports: (),
}

/// The two sorts of module, and what is particular to each.
#[derive(Debug, PartialEq)]
pub enum ModuleType<'a> {
    /// A module that a program starts from, with the definition that it
    /// starts with.
    ExecutableModule { entrypoint: Definition<'a> },
    /// An ordinary module, with what it exports, which is not worked out yet.
    LibraryModule { exports: Vec<()> },
}

/// A module: the top of the tree.
#[derive(Debug, PartialEq)]
pub struct Module<'a> {
    pub header: ModuleHeader,
    pub typ: ModuleType<'a>,
    pub definitions: Vec<Definition<'a>>,
}

/// A definition of a type or of a function: the items of a module.
#[derive(Debug, PartialEq)]
pub enum Definition<'a> {
    TypeDefinition,
    FunctionDefinition { ident: Ident<'a>, sig: FunctionSignature<'a>, body: Expression },
}

/// The signature of a function: its parameters in order, each a pattern with
/// or without a type, and the type of its result. A constant has no
/// parameters.
#[derive(Debug, PartialEq)]
pub struct FunctionSignature<'a> {
    pub params: Vec<(Pattern<'a>, Option<TypePath<'a>>)>,
    pub return_type: TypePath<'a>,
}

/// A reference to a type by its name.
#[derive(Debug, PartialEq)]
pub struct TypePath<'a> {
    pub ident: Ident<'a>,
}

/// A pattern, as it stands for a parameter of a function: it binds a value
/// or takes one apart.
#[derive(Debug, PartialEq)]
pub enum Pattern<'a> {
    /// Binds the value to a name.
    Binding(Ident<'a>),
    /// A variant of an enumeration.
    DataVariant,
    /// The fields of a record.
    Record,
}

/// An identifier: a name as written in the source.
#[derive(Debug, PartialEq)]
pub struct Ident<'a>(pub &'a str);

/// An expression: what can be evaluated to a value.
#[derive(Clone, Copy, Debug, PartialEq, Eq, Structural)]
pub enum Expression {
    Unit,
}

/// The model of a pattern.
pub ghost enum PatternView {
    Binding(Seq<char>),
    DataVariant,
    Record,
}

/// The model of a parameter: its pattern and its type, if it has one.
pub type ParamView = (PatternView, Option<Seq<char>>);

/// The model of a signature.
pub ghost struct SignatureView {
    pub params: Seq<ParamView>,
    pub return_type: Seq<char>,
}

/// The model of a definition.
pub ghost enum DefinitionView {
    TypeDefinition,
    FunctionDefinition { ident: Seq<char>, sig: SignatureView, body: Expression },
}

/// The model of a module's sort.
pub ghost enum ModuleTypeView {
    ExecutableModule { entrypoint: DefinitionView },
    LibraryModule { exports: nat },
}

/// The model of a module.
pub ghost struct ModuleView {
    pub name: Seq<char>,
    pub typ: ModuleTypeView,
    pub definitions: Seq<DefinitionView>,
}

impl<'a> View for Ident<'a> {
    type V = Seq<char>;

    open spec fn view(&self) -> Seq<char> {
        self.0@
    }
}

impl<'a> View for TypePath<'a> {
    type V = Seq<char>;

    open spec fn view(&self) -> Seq<char> {
        self.ident@
    }
}

impl<'a> View for Pattern<'a> {
    type V = PatternView;

    open spec fn view(&self) -> PatternView {
        match *self {
            Pattern::Binding(ident) => PatternView::Binding(ident@),
            Pattern::DataVariant => PatternView::DataVariant,
            Pattern::Record => PatternView::Record,
        }
    }
}

/// The model of a parameter.
pub open spec fn param_view<'a>(param: (Pattern<'a>, Option<TypePath<'a>>)) -> ParamView {
    (
        param.0@,
        match param.1 {
            Some(path) => Some(path@),
            None => None,
        },
    )
}

/// The models of a list of parameters, one by one.
pub open spec fn params_view<'a>(params: Seq<(Pattern<'a>, Option<TypePath<'a>>)>) -> Seq<
    ParamView,
> {
    Seq::new(params.len(), |i: int| param_view(params[i]))
}

impl<'a> View for FunctionSignature<'a> {
    type V = SignatureView;

    open spec fn view(&self) -> SignatureView {
        SignatureView { params: params_view(self.params@), return_type: self.return_type@ }
    }
}

impl<'a> View for Definition<'a> {
    type V = DefinitionView;

    open spec fn view(&self) -> DefinitionView {
        match *self {
            Definition::TypeDefinition => DefinitionView::TypeDefinition,
            Definition::FunctionDefinition { ident, sig, body } => DefinitionView::FunctionDefinition {
                ident: ident@,
                sig: sig@,
                body,
            },
        }
    }
}

impl<'a> View for ModuleType<'a> {
    type V = ModuleTypeView;

    open spec fn view(&self) -> ModuleTypeView {
        match *self {
            ModuleType::ExecutableModule { entrypoint } => ModuleTypeView::ExecutableModule {
                entrypoint: entrypoint@,
            },
            ModuleType::LibraryModule { exports } => ModuleTypeView::LibraryModule {
                exports: exports@.len(),
            },
        }
    }
}

impl<'a> View for Module<'a> {
    type V = ModuleView;

    open spec fn view(&self) -> ModuleView {
        ModuleView {
            name: self.header.name@,
            typ: self.typ@,
            definitions: Seq::new(self.definitions@.len(), |i: int| self.definitions@[i]@),
        }
    }
}

} // verus!
