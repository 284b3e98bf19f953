//! What a name in a program refers to.

use vstd::prelude::*;

verus! {

/// The type that a name was annotated with.
#[derive(Clone, Copy, Debug, PartialEq, Eq, Structural)]
pub enum VarType {
    /// No annotation: the type is left to be inferred.
    Auto,
    /// Annotated with `?`.
    Boolean,
    /// Annotated with `#`.
    Double,
    /// Annotated with `%`.
    Integer,
    /// Annotated with `$`.
    Text,
}

/// The annotation that stands for `vtype` behind a name: nothing for `Auto`.
pub open spec fn annotation(vtype: VarType) -> Seq<char> {
    match vtype {
        VarType::Auto => Seq::empty(),
        VarType::Boolean => seq!['?'],
        VarType::Double => seq!['#'],
        VarType::Integer => seq!['%'],
        VarType::Text => seq!['$'],
    }
}

/// The type that the annotation `c` stands for, if `c` is one.
pub open spec fn annotated(c: char) -> Option<VarType> {
    if c == '?' {
        Some(VarType::Boolean)
    } else if c == '#' {
        Some(VarType::Double)
    } else if c == '%' {
        Some(VarType::Integer)
    } else if c == '$' {
        Some(VarType::Text)
    } else {
        None
    }
}

impl VarType {
    /// The type that the annotation `c` stands for, if `c` is one.
    pub fn of_annotation(c: char) -> (r: Option<VarType>)
        ensures
            r == annotated(c),
    {
        match c {
            '?' => Some(VarType::Boolean),
            '#' => Some(VarType::Double),
            '%' => Some(VarType::Integer),
            '$' => Some(VarType::Text),
            _ => None,
        }
    }
}

/// A reference to a variable: its name as written and its annotated type.
#[derive(Clone, Debug, PartialEq, Eq)]
pub struct VarRef {
    /// The name, in the letter case of the program.
    pub name: String,
    /// The annotated type.
    pub vtype: VarType,
}

/// A `VarRef` as a mathematical value.
pub struct VarRefView {
    pub name: Seq<char>,
    pub vtype: VarType,
}

impl View for VarRef {
    type V = VarRefView;

    open spec fn view(&self) -> VarRefView {
        VarRefView { name: self.name@, vtype: self.vtype }
    }
}

impl VarRef {
    /// The reference to `name` with the type `vtype`.
    pub fn new(name: &str, vtype: VarType) -> (r: VarRef)
        ensures
            r@ == (VarRefView { name: name@, vtype: vtype }),
    {
        VarRef { name: name.to_owned(), vtype }
    }

    /// The reference as it is written in a program: the name, then the
    /// annotation of its type.
    pub fn to_text(&self) -> (r: String)
        ensures
            r@ == self.name@ + annotation(self.vtype),
    {
        let mut out = self.name.clone();
        match self.vtype {
            VarType::Auto => {
                assert(out@ + Seq::<char>::empty() =~= out@);
            },
            VarType::Boolean => {
                out.push('?');
            },
            VarType::Double => {
                out.push('#');
            },
            VarType::Integer => {
                out.push('%');
            },
            VarType::Text => {
                out.push('$');
            },
        }
        assert(out@ =~= self.name@ + annotation(self.vtype));
        out
    }
}

} // verus!
