use vstd::prelude::*;

verus! {

/// What the tray menu shows for one provider.
#[derive(Debug, Clone)]
pub struct ProviderTrayStats {
    pub name: String,
    pub display_text: String,
}

} // verus!
