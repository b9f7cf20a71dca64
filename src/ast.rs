use vstd::prelude::*;

verus! {

/// The function a component computes: a primitive gate, or an instance of a
/// named subcircuit.
#[derive(Debug)]
pub enum GateType {
    And,
    Or,
    Not,
    Nand,
    Nor,
    Xor,
    Xnor,
    Subcircuit(String),
}

/// The mathematical view of a `GateType`.
pub enum GateKind {
    And,
    Or,
    Not,
    Nand,
    Nor,
    Xor,
    Xnor,
    Subcircuit(Seq<char>),
}

impl View for GateType {
    type V = GateKind;

    open spec fn view(&self) -> GateKind {
        match self {
            GateType::And => GateKind::And,
            GateType::Or => GateKind::Or,
            GateType::Not => GateKind::Not,
            GateType::Nand => GateKind::Nand,
            GateType::Nor => GateKind::Nor,
            GateType::Xor => GateKind::Xor,
            GateType::Xnor => GateKind::Xnor,
            GateType::Subcircuit(n) => GateKind::Subcircuit(n@),
        }
    }
}

/// The texts of a sequence of names.
pub open spec fn names_view(v: Seq<String>) -> Seq<Seq<char>> {
    v.map_values(|s: String| s@)
}

/// One gate or subcircuit instance, wired to named signals.
#[derive(Debug)]
pub struct Component {
    pub gate_type: GateType,
    pub identifier: String,
    pub inputs: Vec<String>,
    pub outputs: Vec<String>,
}

pub struct ComponentModel {
    pub gate: GateKind,
    pub identifier: Seq<char>,
    pub inputs: Seq<Seq<char>>,
    pub outputs: Seq<Seq<char>>,
}

impl View for Component {
    type V = ComponentModel;

    open spec fn view(&self) -> ComponentModel {
        ComponentModel {
            gate: self.gate_type@,
            identifier: self.identifier@,
            inputs: names_view(self.inputs@),
            outputs: names_view(self.outputs@),
        }
    }
}

pub open spec fn components_view(v: Seq<Component>) -> Seq<ComponentModel> {
    v.map_values(|c: Component| c@)
}

/// A named, reusable group of components with its own inputs and outputs.
#[derive(Debug)]
pub struct Subcircuit {
    pub name: String,
    pub inputs: Vec<String>,
    pub outputs: Vec<String>,
    pub components: Vec<Component>,
}

pub struct SubcircuitModel {
    pub name: Seq<char>,
    pub inputs: Seq<Seq<char>>,
    pub outputs: Seq<Seq<char>>,
    pub components: Seq<ComponentModel>,
}

impl View for Subcircuit {
    type V = SubcircuitModel;

    open spec fn view(&self) -> SubcircuitModel {
        SubcircuitModel {
            name: self.name@,
            inputs: names_view(self.inputs@),
            outputs: names_view(self.outputs@),
            components: components_view(self.components@),
        }
    }
}

pub open spec fn subcircuits_view(v: Seq<Subcircuit>) -> Seq<SubcircuitModel> {
    v.map_values(|d: Subcircuit| d@)
}

/// A whole circuit: its inputs in column order, its outputs, its top-level
/// components, and the subcircuits it defines.
#[derive(Debug)]
pub struct Program {
    pub inputs: Vec<String>,
    pub outputs: Vec<String>,
    pub components: Vec<Component>,
    pub subcircuits: Vec<Subcircuit>,
}

pub struct ProgramModel {
    pub inputs: Seq<Seq<char>>,
    pub outputs: Seq<Seq<char>>,
    pub components: Seq<ComponentModel>,
    pub subcircuits: Seq<SubcircuitModel>,
}

impl View for Program {
    type V = ProgramModel;

    open spec fn view(&self) -> ProgramModel {
        ProgramModel {
            inputs: names_view(self.inputs@),
            outputs: names_view(self.outputs@),
            components: components_view(self.components@),
            subcircuits: subcircuits_view(self.subcircuits@),
        }
    }
}

/// The first definition named `name`.
pub open spec fn find_subcircuit(subs: Seq<SubcircuitModel>, name: Seq<char>) -> Option<
    SubcircuitModel,
>
    decreases subs.len(),
{
    if subs.len() == 0 {
        None
    } else if subs[0].name == name {
        Some(subs[0])
    } else {
        find_subcircuit(subs.drop_first(), name)
    }
}

/// Looks up the first definition named `name`.
pub fn lookup_subcircuit<'a>(subs: &'a Vec<Subcircuit>, name: &String) -> (r: Option<
    &'a Subcircuit,
>)
    ensures
        match find_subcircuit(subcircuits_view(subs@), name@) {
            Some(d) => r is Some && r->Some_0@ == d,
            None => r is None,
        },
{
    let ghost all = subcircuits_view(subs@);
    let mut i: usize = 0;
    assert(all.skip(0) == all);
    while i < subs.len()
        invariant
            i <= subs@.len(),
            all == subcircuits_view(subs@),
            find_subcircuit(all, name@) == find_subcircuit(all.skip(i as int), name@),
        decreases subs@.len() - i,
    {
        assert(all.skip(i as int)[0] == subs@[i as int]@);
        assert(all.skip(i as int).drop_first() == all.skip(i + 1));
        if subs[i].name == *name {
            return Some(&subs[i]);
        }
        i = i + 1;
    }
    None
}

} // verus!
