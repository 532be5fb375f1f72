use crate::error::DecodeError;
use crate::layout::{
    bytes_at, done, end_of, i32_at, lemma_repeat_fails, repeat, u32_at, u64_at, value_of, Cursor,
    Decoded,
};
use crate::name::{get_name, name_ref_at, names_view, NameView, UnrealName};
use crate::reader::ByteReader;
use vstd::prelude::*;

verus! {

/// An object that the package itself defines.
#[derive(Default, Debug, Clone, PartialEq, Eq)]
pub struct UnrealExport {
    /// Raw references into the other tables; none of them is followed.
    pub class_idx: u32,
    pub package_idx: u32,
    pub object_name: String,
    /// Where the body of the object lies in the file, and how long it is.
    pub serial_size: u32,
    pub serial_offset: u32,
    pub super_idx: u32,
    pub object_flags: u64,
    pub export_flags: u32,
    pub archetype: i32,
    pub generations: Vec<u32>,
    pub guid: [u8; 16],
    /// The record has no such field; it is always zero.
    pub package_flags: u32,
    pub unk_6c: u32,
}

/// What an export record holds.
pub struct ExportView {
    pub class_idx: u32,
    pub package_idx: u32,
    pub object_name: Seq<char>,
    pub serial_size: u32,
    pub serial_offset: u32,
    pub super_idx: u32,
    pub object_flags: u64,
    pub export_flags: u32,
    pub archetype: i32,
    pub generations: Seq<u32>,
    pub guid: Seq<u8>,
    pub package_flags: u32,
    pub unk_6c: u32,
}

impl View for UnrealExport {
    type V = ExportView;

    open spec fn view(&self) -> ExportView {
        ExportView {
            class_idx: self.class_idx,
            package_idx: self.package_idx,
            object_name: self.object_name@,
            serial_size: self.serial_size,
            serial_offset: self.serial_offset,
            super_idx: self.super_idx,
            object_flags: self.object_flags,
            export_flags: self.export_flags,
            archetype: self.archetype,
            generations: self.generations@,
            guid: self.guid@,
            package_flags: self.package_flags,
            unk_6c: self.unk_6c,
        }
    }
}

/// What an export table holds, record by record.
pub open spec fn exports_view(table: Seq<UnrealExport>) -> Seq<ExportView> {
    Seq::new(table.len(), |i: int| table[i]@)
}

/// The decoder of one unsigned 32-bit field, for a run of them.
pub open spec fn u32_field() -> spec_fn(Seq<u8>, Cursor) -> Decoded<u32> {
    |s: Seq<u8>, c: Cursor| u32_at(s, c)
}

/// An export record: three unsigned 32-bit references, a name reference, a
/// signed 32-bit archetype, a 64-bit flag word, three more unsigned 32-bit
/// fields, a counted run of unsigned 32-bit generation counts, a 16-byte
/// identity and one more unsigned 32-bit field.
pub open spec fn export_at(names: Seq<NameView>, s: Seq<u8>, c: Cursor) -> Decoded<ExportView> {
    let class_idx = u32_at(s, c);
    let super_idx = u32_at(s, end_of(class_idx));
    let package_idx = u32_at(s, end_of(super_idx));
    let object_name = name_ref_at(names, s, end_of(package_idx));
    let archetype = i32_at(s, end_of(object_name));
    let object_flags = u64_at(s, end_of(archetype));
    let serial_size = u32_at(s, end_of(object_flags));
    let serial_offset = u32_at(s, end_of(serial_size));
    let export_flags = u32_at(s, end_of(serial_offset));
    let count = u32_at(s, end_of(export_flags));
    let generations = repeat(u32_field(), s, end_of(count), value_of(count) as nat);
    let guid = bytes_at(s, end_of(generations), 16);
    let unk_6c = u32_at(s, end_of(guid));
    done(
        end_of(unk_6c),
        ExportView {
            class_idx: value_of(class_idx),
            package_idx: value_of(package_idx),
            object_name: value_of(object_name),
            serial_size: value_of(serial_size),
            serial_offset: value_of(serial_offset),
            super_idx: value_of(super_idx),
            object_flags: value_of(object_flags),
            export_flags: value_of(export_flags),
            archetype: value_of(archetype),
            generations: value_of(generations),
            guid: value_of(guid),
            package_flags: 0,
            unk_6c: value_of(unk_6c),
        },
    )
}

/// Decodes a run of `count` unsigned 32-bit fields at the cursor.
fn read_u32_run(r: &mut ByteReader, count: u32) -> (result: Result<Vec<u32>, DecodeError>)
    ensures
        final(r).bytes() == old(r).bytes(),
        match repeat(u32_field(), old(r).bytes(), Ok(old(r).pos()), count as nat) {
            Ok((v, q)) => result is Ok && result->Ok_0@ == v && final(r).pos() == q,
            Err(e) => result == Err::<Vec<u32>, DecodeError>(e),
        },
{
    let ghost s = r.bytes();
    let ghost start: Cursor = Ok(r.pos());
    let mut run: Vec<u32> = Vec::new();
    let mut i: u32 = 0;
    while i < count
        invariant
            i <= count,
            r.bytes() == s,
            s == old(r).bytes(),
            start == Ok::<int, DecodeError>(old(r).pos()),
            repeat(u32_field(), s, start, i as nat) == Ok::<(Seq<u32>, int), DecodeError>(
                (run@, r.pos()),
            ),
        decreases count - i,
    {
        match r.read_u32() {
            Ok(v) => {
                run.push(v);
            },
            Err(e) => {
                proof {
                    lemma_repeat_fails(u32_field(), s, start, (i + 1) as nat, count as nat);
                }
                return Err(e);
            },
        }
        i = i + 1;
    }
    Ok(run)
}

impl UnrealExport {
    /// Decodes one export record at the cursor, with its name looked up in
    /// `names`.
    pub fn parse(r: &mut ByteReader, names: &[UnrealName]) -> (result: Result<Self, DecodeError>)
        ensures
            final(r).bytes() == old(r).bytes(),
            match export_at(names_view(names@), old(r).bytes(), Ok(old(r).pos())) {
                Ok((v, q)) => result is Ok && result->Ok_0@ == v && final(r).pos() == q,
                Err(e) => result == Err::<Self, DecodeError>(e),
            },
    {
        let class_idx = r.read_u32()?;
        let super_idx = r.read_u32()?;
        let package_idx = r.read_u32()?;
        let object_name = get_name(r, names)?.to_owned();
        let archetype = r.read_i32()?;
        let object_flags = r.read_u64()?;
        let serial_size = r.read_u32()?;
        let serial_offset = r.read_u32()?;
        let export_flags = r.read_u32()?;
        let len = r.read_u32()?;
        let generations = read_u32_run(r, len)?;
        let guid = r.read_guid()?;
        let unk_6c = r.read_u32()?;
        Ok(
            UnrealExport {
                class_idx,
                package_idx,
                object_name,
                serial_size,
                serial_offset,
                super_idx,
                object_flags,
                export_flags,
                archetype,
                generations,
                guid,
                package_flags: 0,
                unk_6c,
            },
        )
    }
}

} // verus!
