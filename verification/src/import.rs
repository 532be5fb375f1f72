use crate::error::DecodeError;
use crate::layout::{done, end_of, u32_at, value_of, Cursor, Decoded};
use crate::name::{get_name, name_ref_at, names_view, NameView, UnrealName};
use crate::reader::ByteReader;
use vstd::prelude::*;

verus! {

/// An object that the package refers to and another package defines.
#[derive(Default, Debug, Clone, PartialEq, Eq)]
pub struct UnrealImport {
    pub class_package: String,
    pub class_name: String,
    /// The raw reference to the outer entity; it is not followed.
    pub package_idx: u32,
    pub object_name: String,
}

/// What an import record holds.
pub struct ImportView {
    pub class_package: Seq<char>,
    pub class_name: Seq<char>,
    pub package_idx: u32,
    pub object_name: Seq<char>,
}

impl View for UnrealImport {
    type V = ImportView;

    open spec fn view(&self) -> ImportView {
        ImportView {
            class_package: self.class_package@,
            class_name: self.class_name@,
            package_idx: self.package_idx,
            object_name: self.object_name@,
        }
    }
}

/// What an import table holds, record by record.
pub open spec fn imports_view(table: Seq<UnrealImport>) -> Seq<ImportView> {
    Seq::new(table.len(), |i: int| table[i]@)
}

/// An import record: two name references, an unsigned 32-bit outer
/// reference, and a third name reference.
pub open spec fn import_at(names: Seq<NameView>, s: Seq<u8>, c: Cursor) -> Decoded<ImportView> {
    let class_package = name_ref_at(names, s, c);
    let class_name = name_ref_at(names, s, end_of(class_package));
    let package_idx = u32_at(s, end_of(class_name));
    let object_name = name_ref_at(names, s, end_of(package_idx));
    done(
        end_of(object_name),
        ImportView {
            class_package: value_of(class_package),
            class_name: value_of(class_name),
            package_idx: value_of(package_idx),
            object_name: value_of(object_name),
        },
    )
}

impl UnrealImport {
    /// Decodes one import record at the cursor, with its names looked up in
    /// `names`.
    pub fn parse(r: &mut ByteReader, names: &[UnrealName]) -> (result: Result<Self, DecodeError>)
        ensures
            final(r).bytes() == old(r).bytes(),
            match import_at(names_view(names@), old(r).bytes(), Ok(old(r).pos())) {
                Ok((v, q)) => result is Ok && result->Ok_0@ == v && final(r).pos() == q,
                Err(e) => result == Err::<Self, DecodeError>(e),
            },
    {
        let class_package = get_name(r, names)?.to_owned();
        let class_name = get_name(r, names)?.to_owned();
        let package_idx = r.read_u32()?;
        let object_name = get_name(r, names)?.to_owned();
        Ok(UnrealImport { class_package, class_name, package_idx, object_name })
    }
}

} // verus!
