//! The vocabulary shared by the descriptor format and the invocation
//! protocol: argument shapes, function signatures and modules.

use vstd::prelude::*;

verus! {

/// The shape of one argument or of a return value.
#[derive(Clone, Copy, Debug, PartialEq, Eq, Structural)]
pub enum ArgumentType {
    U8,
    U16,
    U32,
    I8,
    I16,
    I32,
    /// A variable-length byte sequence, moved by a bulk transfer.
    Bytes,
}

/// The tag byte that stands for a shape in a descriptor. Zero is never a
/// tag: in the return position it means "returns nothing".
pub open spec fn tag_of(t: ArgumentType) -> u8 {
    match t {
        ArgumentType::U8 => 1,
        ArgumentType::U16 => 2,
        ArgumentType::U32 => 3,
        ArgumentType::I8 => 4,
        ArgumentType::I16 => 5,
        ArgumentType::I32 => 6,
        ArgumentType::Bytes => 7,
    }
}

/// The shape that a tag byte stands for, if it stands for one.
pub open spec fn type_of_tag(tag: u8) -> Option<ArgumentType> {
    if tag == 1 {
        Some(ArgumentType::U8)
    } else if tag == 2 {
        Some(ArgumentType::U16)
    } else if tag == 3 {
        Some(ArgumentType::U32)
    } else if tag == 4 {
        Some(ArgumentType::I8)
    } else if tag == 5 {
        Some(ArgumentType::I16)
    } else if tag == 6 {
        Some(ArgumentType::I32)
    } else if tag == 7 {
        Some(ArgumentType::Bytes)
    } else {
        None
    }
}

/// The number of bytes a value of this shape takes in an argument buffer;
/// `None` for a byte sequence, which has no fixed width.
pub open spec fn width_of(t: ArgumentType) -> Option<nat> {
    match t {
        ArgumentType::U8 | ArgumentType::I8 => Some(1),
        ArgumentType::U16 | ArgumentType::I16 => Some(2),
        ArgumentType::U32 | ArgumentType::I32 => Some(4),
        ArgumentType::Bytes => None,
    }
}

impl ArgumentType {
    pub fn tag(self) -> (tag: u8)
        ensures
            tag == tag_of(self),
            type_of_tag(tag) == Some(self),
    {
        match self {
            ArgumentType::U8 => 1,
            ArgumentType::U16 => 2,
            ArgumentType::U32 => 3,
            ArgumentType::I8 => 4,
            ArgumentType::I16 => 5,
            ArgumentType::I32 => 6,
            ArgumentType::Bytes => 7,
        }
    }

    pub fn from_tag(tag: u8) -> (t: Option<ArgumentType>)
        ensures
            t == type_of_tag(tag),
    {
        if tag == 1 {
            Some(ArgumentType::U8)
        } else if tag == 2 {
            Some(ArgumentType::U16)
        } else if tag == 3 {
            Some(ArgumentType::U32)
        } else if tag == 4 {
            Some(ArgumentType::I8)
        } else if tag == 5 {
            Some(ArgumentType::I16)
        } else if tag == 6 {
            Some(ArgumentType::I32)
        } else if tag == 7 {
            Some(ArgumentType::Bytes)
        } else {
            None
        }
    }

    pub fn width(self) -> (w: Option<usize>)
        ensures
            match w {
                Some(n) => width_of(self) == Some(n as nat),
                None => width_of(self).is_none(),
            },
    {
        match self {
            ArgumentType::U8 | ArgumentType::I8 => Some(1),
            ArgumentType::U16 | ArgumentType::I16 => Some(2),
            ArgumentType::U32 | ArgumentType::I32 => Some(4),
            ArgumentType::Bytes => None,
        }
    }
}

/// One exported function: its name, the index that selects it on the
/// wire, the shapes of its arguments in call order, and the shape of what
/// it returns, if anything.
#[derive(Clone, Debug, PartialEq, Eq)]
pub struct FunctionSignature {
    pub name: Vec<u8>,
    pub index: u8,
    pub args: Vec<ArgumentType>,
    pub ret: Option<ArgumentType>,
}

/// What a `FunctionSignature` is, mathematically.
pub ghost struct FunctionModel {
    pub name: Seq<u8>,
    pub index: u8,
    pub args: Seq<ArgumentType>,
    pub ret: Option<ArgumentType>,
}

impl View for FunctionSignature {
    type V = FunctionModel;

    open spec fn view(&self) -> FunctionModel {
        FunctionModel { name: self.name@, index: self.index, args: self.args@, ret: self.ret }
    }
}

/// A named collection of functions, in the order the descriptor lists
/// them.
#[derive(Clone, Debug, PartialEq, Eq)]
pub struct Module {
    pub name: Vec<u8>,
    pub functions: Vec<FunctionSignature>,
}

/// What a `Module` is, mathematically.
pub ghost struct ModuleModel {
    pub name: Seq<u8>,
    pub functions: Seq<FunctionModel>,
}

/// The models of a sequence of signatures, in order.
pub open spec fn functions_view(fs: Seq<FunctionSignature>) -> Seq<FunctionModel> {
    fs.map_values(|f: FunctionSignature| f@)
}

/// The models of a sequence of modules, in order.
pub open spec fn modules_view(ms: Seq<Module>) -> Seq<ModuleModel> {
    ms.map_values(|m: Module| m@)
}

impl View for Module {
    type V = ModuleModel;

    open spec fn view(&self) -> ModuleModel {
        ModuleModel { name: self.name@, functions: functions_view(self.functions@) }
    }
}

/// No two functions share an index.
pub open spec fn distinct_indices(fs: Seq<FunctionModel>) -> bool {
    forall|i: int, j: int| 0 <= i < j < fs.len() ==> fs[i].index != fs[j].index
}

/// Whether some index occurs twice among the functions.
pub fn has_duplicate_index(fs: &Vec<FunctionSignature>) -> (dup: bool)
    ensures
        dup == !distinct_indices(functions_view(fs@)),
{
    let ghost m = functions_view(fs@);
    let n: usize = fs.len();
    let mut j: usize = 0;
    while j < n
        invariant
            n == fs@.len(),
            m == functions_view(fs@),
            0 <= j <= n,
            forall|a: int, b: int| 0 <= a < b < j ==> m[a].index != m[b].index,
        decreases n - j,
    {
        let mut i: usize = 0;
        while i < j
            invariant
                n == fs@.len(),
                m == functions_view(fs@),
                0 <= i <= j < n,
                forall|a: int| 0 <= a < i ==> m[a].index != m[j as int].index,
            decreases j - i,
        {
            if fs[i].index == fs[j].index {
                assert(m[i as int].index == m[j as int].index);
                return true;
            }
            i += 1;
        }
        j += 1;
    }
    false
}

} // verus!
