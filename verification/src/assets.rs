use vstd::prelude::*;

verus! {

/// Names a texture: the module that defines it and the entity that it depicts.
#[derive(Copy, Clone, PartialEq, Eq, Debug, Hash)]
pub struct MappingID {
    pub module: &'static str,
    pub entity: &'static str,
}

impl MappingID {
    pub open spec fn spec_text(self) -> Seq<char> {
        self.module@ + ":"@ + self.entity@
    }

    /// The texture's name as `module:entity`.
    pub fn text(&self) -> (r: String)
        ensures
            r@ == self.spec_text(),
    {
        let mut text = String::from_str(self.module);
        text.append(":");
        text.append(self.entity);
        text
    }
}

/// The texture that stands for anything without a texture of its own.
pub fn default_texture_id() -> (r: MappingID)
    ensures
        r.module@ == "base"@,
        r.entity@ == "default"@,
{
    MappingID { module: "base", entity: "default" }
}

} // verus!
