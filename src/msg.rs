use vstd::prelude::*;

verus! {

/// What a registry is set up with: who may modify it and who may execute
/// through it.
#[derive(Clone, Debug, PartialEq)]
pub struct InstantiateMsg {
    pub admins: Vec<String>,
    pub executers: Vec<String>,
}

/// A candidate link together with the name it is to be registered under.
#[derive(Clone, Debug, PartialEq)]
pub struct NamedDeeplink {
    pub id: String,
    pub type_: String,
    pub from: Option<String>,
    pub to: Option<String>,
}

/// A candidate link. An absent endpoint is the null marker: a link either
/// has both endpoints or neither.
#[derive(Clone, Debug, PartialEq)]
pub struct Deeplink {
    pub type_: String,
    pub from: Option<String>,
    pub to: Option<String>,
}

/// A candidate link as sequences of characters.
pub struct DeeplinkView {
    pub type_: Seq<char>,
    pub from: Option<Seq<char>>,
    pub to: Option<Seq<char>>,
}

pub open spec fn option_view(o: Option<String>) -> Option<Seq<char>> {
    match o {
        Some(s) => Some(s@),
        None => None,
    }
}

impl View for Deeplink {
    type V = DeeplinkView;

    open spec fn view(&self) -> DeeplinkView {
        DeeplinkView { type_: self.type_@, from: option_view(self.from), to: option_view(self.to) }
    }
}

} // verus!
