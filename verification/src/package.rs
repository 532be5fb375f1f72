use crate::error::DecodeError;
use crate::export::{export_at, exports_view, ExportView, UnrealExport};
use crate::generation::{generation_at, UnrealGeneration};
use crate::import::{import_at, imports_view, ImportView, UnrealImport};
use crate::layout::{
    bytes_at, done, end_of, i32_at, i32_if, lemma_repeat_fails, repeat, u32_at, value_of, Cursor,
    Decoded,
};
use crate::name::{name_at, names_view, NameView, UnrealName};
use crate::reader::ByteReader;
use crate::text::{parse_string, string_if};
use crate::version::{file_version_of, licensee_version_of, split_version};
use vstd::prelude::*;

verus! {

/// The decoded header of one package file, with everything behind its
/// tables kept as raw bytes.
#[derive(Default, Debug, Clone, PartialEq, Eq)]
pub struct UnrealPackage {
    pub tag: u32,
    pub file_version: u16,
    pub licensee_version: u16,
    pub package_flags: i32,
    pub names: Vec<UnrealName>,
    pub exports: Vec<UnrealExport>,
    pub imports: Vec<UnrealImport>,
    pub guid: [u8; 16],
    pub generations: Vec<UnrealGeneration>,
    pub headers_size: i32,
    pub package_group: String,
    pub depends_offset: i32,
    pub f38: i32,
    pub f3_c: i32,
    pub f40: i32,
    pub engine_version: i32,
    pub cooker_version: i32,
    pub compression_flags: i32,
    /// The list of compressed chunks is not decoded; it is always empty.
    pub compressed_chunks: Vec<()>,
    pub u3unk60: i32,
    pub rest: Vec<u8>,
}

/// What the preamble of a package holds.
pub struct HeaderView {
    pub tag: u32,
    pub file_version: u16,
    pub licensee_version: u16,
    pub headers_size: i32,
    pub package_group: Seq<char>,
    pub package_flags: i32,
    pub depends_offset: i32,
    pub f38: i32,
    pub f3_c: i32,
    pub f40: i32,
    pub guid: Seq<u8>,
    pub generations: Seq<UnrealGeneration>,
    pub engine_version: i32,
    pub cooker_version: i32,
    pub compression_flags: i32,
    pub u3unk60: i32,
}

/// Where the preamble says the three tables lie, and how many records each
/// holds. The offsets count from the start of the file.
pub struct Directory {
    pub name_count: u32,
    pub name_offset: u32,
    pub export_count: u32,
    pub export_offset: u32,
    pub import_count: u32,
    pub import_offset: u32,
}

/// What a decoded package holds.
pub struct PackageView {
    pub header: HeaderView,
    pub names: Seq<NameView>,
    pub imports: Seq<ImportView>,
    pub exports: Seq<ExportView>,
    pub compressed_chunks: Seq<()>,
    pub rest: Seq<u8>,
}

impl View for UnrealPackage {
    type V = PackageView;

    open spec fn view(&self) -> PackageView {
        PackageView {
            header: HeaderView {
                tag: self.tag,
                file_version: self.file_version,
                licensee_version: self.licensee_version,
                headers_size: self.headers_size,
                package_group: self.package_group@,
                package_flags: self.package_flags,
                depends_offset: self.depends_offset,
                f38: self.f38,
                f3_c: self.f3_c,
                f40: self.f40,
                guid: self.guid@,
                generations: self.generations@,
                engine_version: self.engine_version,
                cooker_version: self.cooker_version,
                compression_flags: self.compression_flags,
                u3unk60: self.u3unk60,
            },
            names: names_view(self.names@),
            imports: imports_view(self.imports@),
            exports: exports_view(self.exports@),
            compressed_chunks: self.compressed_chunks@,
            rest: self.rest@,
        }
    }
}

/// The decoder of one generation record, for a run of them.
pub open spec fn generation_record(net_objects: bool) -> spec_fn(Seq<u8>, Cursor) -> Decoded<
    UnrealGeneration,
> {
    |s: Seq<u8>, c: Cursor| generation_at(net_objects, s, c)
}

/// The decoder of one name-table entry, for a run of them.
pub open spec fn name_record() -> spec_fn(Seq<u8>, Cursor) -> Decoded<NameView> {
    |s: Seq<u8>, c: Cursor| name_at(s, c)
}

/// The decoder of one import record, for a run of them.
pub open spec fn import_record(names: Seq<NameView>) -> spec_fn(Seq<u8>, Cursor) -> Decoded<
    ImportView,
> {
    |s: Seq<u8>, c: Cursor| import_at(names, s, c)
}

/// The decoder of one export record, for a run of them.
pub open spec fn export_record(names: Seq<NameView>) -> spec_fn(Seq<u8>, Cursor) -> Decoded<
    ExportView,
> {
    |s: Seq<u8>, c: Cursor| export_at(names, s, c)
}

/// The number of records in a run whose count field holds `count`: a
/// negative count stands for none.
pub open spec fn run_length(count: i32) -> nat {
    if count > 0 {
        count as nat
    } else {
        0
    }
}

/// The preamble of a package. Which fields the file holds goes by the file
/// version, itself the low half of the second field; a field that the file
/// does not hold is zero, or empty, and takes no bytes.
#[verifier::opaque]
pub open spec fn header_at(s: Seq<u8>, c: Cursor) -> Decoded<(HeaderView, Directory)> {
    let tag = u32_at(s, c);
    let version = u32_at(s, end_of(tag));
    let fv = file_version_of(value_of(version));
    let headers_size = i32_if(fv >= 249, s, end_of(version));
    let package_group = string_if(fv >= 269, s, end_of(headers_size));
    let package_flags = i32_at(s, end_of(package_group));
    let name_count = u32_at(s, end_of(package_flags));
    let name_offset = u32_at(s, end_of(name_count));
    let export_count = u32_at(s, end_of(name_offset));
    let export_offset = u32_at(s, end_of(export_count));
    let import_count = u32_at(s, end_of(export_offset));
    let import_offset = u32_at(s, end_of(import_count));
    let depends_offset = i32_if(fv >= 415, s, end_of(import_offset));
    let f38 = i32_if(fv >= 623, s, end_of(depends_offset));
    let f3_c = i32_if(fv >= 623, s, end_of(f38));
    let f40 = i32_if(fv >= 623, s, end_of(f3_c));
    let skipped = i32_if(fv >= 584, s, end_of(f40));
    let guid = bytes_at(s, end_of(skipped), 16);
    let generation_count = i32_at(s, end_of(guid));
    let generations = repeat(
        generation_record(fv >= 322),
        s,
        end_of(generation_count),
        run_length(value_of(generation_count)),
    );
    let engine_version = i32_if(fv >= 245, s, end_of(generations));
    let cooker_version = i32_if(fv >= 277, s, end_of(engine_version));
    let compression_flags = i32_if(fv >= 334, s, end_of(cooker_version));
    let u3unk60 = i32_if(fv >= 482, s, end_of(compression_flags));
    done(
        end_of(u3unk60),
        (
            HeaderView {
                tag: value_of(tag),
                file_version: fv,
                licensee_version: licensee_version_of(value_of(version)),
                headers_size: value_of(headers_size),
                package_group: value_of(package_group),
                package_flags: value_of(package_flags),
                depends_offset: value_of(depends_offset),
                f38: value_of(f38),
                f3_c: value_of(f3_c),
                f40: value_of(f40),
                guid: value_of(guid),
                generations: value_of(generations),
                engine_version: value_of(engine_version),
                cooker_version: value_of(cooker_version),
                compression_flags: value_of(compression_flags),
                u3unk60: value_of(u3unk60),
            },
            Directory {
                name_count: value_of(name_count),
                name_offset: value_of(name_offset),
                export_count: value_of(export_count),
                export_offset: value_of(export_offset),
                import_count: value_of(import_count),
                import_offset: value_of(import_offset),
            },
        ),
    )
}

/// A table of `count` records that starts at `offset`, wherever the decode
/// stood before. `mark` is the furthest position that the decode has reached
/// so far, and what comes back in its place is the furthest position with
/// this table taken in. A table of no records is not visited: it leaves the
/// mark alone, whatever its offset.
pub open spec fn table_at<T>(
    rec: spec_fn(Seq<u8>, Cursor) -> Decoded<T>,
    s: Seq<u8>,
    mark: Cursor,
    count: u32,
    offset: u32,
) -> Decoded<Seq<T>> {
    match mark {
        Err(e) => Err(e),
        Ok(m) => if count == 0 {
            Ok((Seq::empty(), m))
        } else {
            match repeat(rec, s, Ok(offset as int), count as nat) {
                Err(e) => Err(e),
                Ok((records, q)) => Ok(
                    (
                        records,
                        if q > m {
                            q
                        } else {
                            m
                        },
                    ),
                ),
            }
        },
    }
}

/// A whole package: the preamble; then the name table, the import table and
/// the export table, each at its own offset, the last two with their names
/// looked up in the first; then, as the rest, every byte behind the furthest
/// position that the preamble or a table reached. The decode ends at the end
/// of the file.
pub open spec fn package_at(s: Seq<u8>, c: Cursor) -> Decoded<PackageView> {
    let header = header_at(s, c);
    let directory = value_of(header).1;
    let names = table_at(
        name_record(),
        s,
        end_of(header),
        directory.name_count,
        directory.name_offset,
    );
    let imports = table_at(
        import_record(value_of(names)),
        s,
        end_of(names),
        directory.import_count,
        directory.import_offset,
    );
    let exports = table_at(
        export_record(value_of(names)),
        s,
        end_of(imports),
        directory.export_count,
        directory.export_offset,
    );
    match end_of(exports) {
        Err(e) => Err(e),
        Ok(mark) => Ok(
            (
                PackageView {
                    header: value_of(header).0,
                    names: value_of(names),
                    imports: value_of(imports),
                    exports: value_of(exports),
                    compressed_chunks: Seq::empty(),
                    rest: s.subrange(mark, s.len() as int),
                },
                s.len() as int,
            ),
        ),
    }
}

/// Decodes a run of generation records at the cursor.
fn read_generations(r: &mut ByteReader, count: i32, net_objects: bool) -> (result: Result<
    Vec<UnrealGeneration>,
    DecodeError,
>)
    ensures
        final(r).bytes() == old(r).bytes(),
        match repeat(
            generation_record(net_objects),
            old(r).bytes(),
            Ok(old(r).pos()),
            run_length(count),
        ) {
            Ok((v, q)) => result is Ok && result->Ok_0@ == v && final(r).pos() == q,
            Err(e) => result == Err::<Vec<UnrealGeneration>, DecodeError>(e),
        },
{
    let ghost s = r.bytes();
    let ghost start: Cursor = Ok(r.pos());
    let mut run: Vec<UnrealGeneration> = Vec::new();
    let mut i: i32 = 0;
    while i < count
        invariant
            0 <= i,
            i as nat <= run_length(count),
            r.bytes() == s,
            s == old(r).bytes(),
            start == Ok::<int, DecodeError>(old(r).pos()),
            repeat(generation_record(net_objects), s, start, i as nat) == Ok::<
                (Seq<UnrealGeneration>, int),
                DecodeError,
            >((run@, r.pos())),
        decreases count - i,
    {
        match UnrealGeneration::parse(r, net_objects) {
            Ok(g) => {
                run.push(g);
            },
            Err(e) => {
                proof {
                    lemma_repeat_fails(
                        generation_record(net_objects),
                        s,
                        start,
                        (i + 1) as nat,
                        run_length(count),
                    );
                }
                return Err(e);
            },
        }
        i = i + 1;
    }
    Ok(run)
}

/// Decodes a run of `count` name-table entries at the cursor.
fn read_names(r: &mut ByteReader, count: u32) -> (result: Result<Vec<UnrealName>, DecodeError>)
    ensures
        final(r).bytes() == old(r).bytes(),
        match repeat(name_record(), old(r).bytes(), Ok(old(r).pos()), count as nat) {
            Ok((v, q)) => result is Ok && names_view(result->Ok_0@) == v && final(r).pos() == q,
            Err(e) => result == Err::<Vec<UnrealName>, DecodeError>(e),
        },
        result is Ok && count > 0 ==> final(r).pos() <= final(r).bytes().len(),
{
    let ghost s = r.bytes();
    let ghost start: Cursor = Ok(r.pos());
    let mut table: Vec<UnrealName> = Vec::new();
    assert(names_view(table@) =~= Seq::<NameView>::empty());
    let mut i: u32 = 0;
    while i < count
        invariant
            i <= count,
            r.bytes() == s,
            s == old(r).bytes(),
            start == Ok::<int, DecodeError>(old(r).pos()),
            repeat(name_record(), s, start, i as nat) == Ok::<(Seq<NameView>, int), DecodeError>(
                (names_view(table@), r.pos()),
            ),
            i > 0 ==> r.pos() <= s.len(),
        decreases count - i,
    {
        let ghost before = names_view(table@);
        let text = match parse_string(r) {
            Ok(text) => text,
            Err(e) => {
                proof {
                    lemma_repeat_fails(name_record(), s, start, (i + 1) as nat, count as nat);
                }
                return Err(e);
            },
        };
        let flags = match r.read_u64() {
            Ok(flags) => flags,
            Err(e) => {
                proof {
                    lemma_repeat_fails(name_record(), s, start, (i + 1) as nat, count as nat);
                }
                return Err(e);
            },
        };
        table.push(UnrealName(text, flags));
        assert(names_view(table@) =~= before.push(NameView { text: text@, flags }));
        i = i + 1;
    }
    Ok(table)
}

/// Decodes a run of `count` import records at the cursor.
fn read_imports(r: &mut ByteReader, count: u32, names: &[UnrealName]) -> (result: Result<
    Vec<UnrealImport>,
    DecodeError,
>)
    ensures
        final(r).bytes() == old(r).bytes(),
        match repeat(
            import_record(names_view(names@)),
            old(r).bytes(),
            Ok(old(r).pos()),
            count as nat,
        ) {
            Ok((v, q)) => result is Ok && imports_view(result->Ok_0@) == v && final(r).pos() == q,
            Err(e) => result == Err::<Vec<UnrealImport>, DecodeError>(e),
        },
        result is Ok && count > 0 ==> final(r).pos() <= final(r).bytes().len(),
{
    let ghost s = r.bytes();
    let ghost start: Cursor = Ok(r.pos());
    let ghost rec = import_record(names_view(names@));
    let mut table: Vec<UnrealImport> = Vec::new();
    assert(imports_view(table@) =~= Seq::<ImportView>::empty());
    let mut i: u32 = 0;
    while i < count
        invariant
            i <= count,
            r.bytes() == s,
            s == old(r).bytes(),
            start == Ok::<int, DecodeError>(old(r).pos()),
            rec == import_record(names_view(names@)),
            repeat(rec, s, start, i as nat) == Ok::<(Seq<ImportView>, int), DecodeError>(
                (imports_view(table@), r.pos()),
            ),
            i > 0 ==> r.pos() <= s.len(),
        decreases count - i,
    {
        let ghost before = imports_view(table@);
        match UnrealImport::parse(r, names) {
            Ok(record) => {
                table.push(record);
                assert(imports_view(table@) =~= before.push(record@));
            },
            Err(e) => {
                proof {
                    lemma_repeat_fails(rec, s, start, (i + 1) as nat, count as nat);
                }
                return Err(e);
            },
        }
        i = i + 1;
    }
    Ok(table)
}

/// Decodes a run of `count` export records at the cursor.
fn read_exports(r: &mut ByteReader, count: u32, names: &[UnrealName]) -> (result: Result<
    Vec<UnrealExport>,
    DecodeError,
>)
    ensures
        final(r).bytes() == old(r).bytes(),
        match repeat(
            export_record(names_view(names@)),
            old(r).bytes(),
            Ok(old(r).pos()),
            count as nat,
        ) {
            Ok((v, q)) => result is Ok && exports_view(result->Ok_0@) == v && final(r).pos() == q,
            Err(e) => result == Err::<Vec<UnrealExport>, DecodeError>(e),
        },
        result is Ok && count > 0 ==> final(r).pos() <= final(r).bytes().len(),
{
    let ghost s = r.bytes();
    let ghost start: Cursor = Ok(r.pos());
    let ghost rec = export_record(names_view(names@));
    let mut table: Vec<UnrealExport> = Vec::new();
    assert(exports_view(table@) =~= Seq::<ExportView>::empty());
    let mut i: u32 = 0;
    while i < count
        invariant
            i <= count,
            r.bytes() == s,
            s == old(r).bytes(),
            start == Ok::<int, DecodeError>(old(r).pos()),
            rec == export_record(names_view(names@)),
            repeat(rec, s, start, i as nat) == Ok::<(Seq<ExportView>, int), DecodeError>(
                (exports_view(table@), r.pos()),
            ),
            i > 0 ==> r.pos() <= s.len(),
        decreases count - i,
    {
        let ghost before = exports_view(table@);
        match UnrealExport::parse(r, names) {
            Ok(record) => {
                table.push(record);
                assert(exports_view(table@) =~= before.push(record@));
            },
            Err(e) => {
                proof {
                    lemma_repeat_fails(rec, s, start, (i + 1) as nat, count as nat);
                }
                return Err(e);
            },
        }
        i = i + 1;
    }
    Ok(table)
}

/// Decodes the preamble at the cursor. The package that comes back holds the
/// fields of the preamble, and no table and no rest yet.
fn read_header(r: &mut ByteReader) -> (result: Result<(UnrealPackage, Directory), DecodeError>)
    ensures
        final(r).bytes() == old(r).bytes(),
        match header_at(old(r).bytes(), Ok(old(r).pos())) {
            Ok((v, q)) => result is Ok && result->Ok_0.0@.header == v.0 && result->Ok_0.1 == v.1
                && final(r).pos() == q && q <= old(r).bytes().len(),
            Err(e) => result == Err::<(UnrealPackage, Directory), DecodeError>(e),
        },
        result is Ok ==> result->Ok_0.0.names@.len() == 0 && result->Ok_0.0.imports@.len() == 0
            && result->Ok_0.0.exports@.len() == 0 && result->Ok_0.0.compressed_chunks@.len() == 0,
{
    reveal(header_at);
    let tag = r.read_u32()?;
    let version = r.read_u32()?;
    let (file_version, licensee_version) = split_version(version);
    let mut headers_size: i32 = 0;
    if file_version >= 249 {
        headers_size = r.read_i32()?;
    }
    let mut package_group = String::new();
    if file_version >= 269 {
        package_group = parse_string(r)?;
    }
    let package_flags = r.read_i32()?;
    let name_count = r.read_u32()?;
    let name_offset = r.read_u32()?;
    let export_count = r.read_u32()?;
    let export_offset = r.read_u32()?;
    let import_count = r.read_u32()?;
    let import_offset = r.read_u32()?;
    let mut depends_offset: i32 = 0;
    if file_version >= 415 {
        depends_offset = r.read_i32()?;
    }
    let mut f38: i32 = 0;
    let mut f3_c: i32 = 0;
    let mut f40: i32 = 0;
    if file_version >= 623 {
        f38 = r.read_i32()?;
        f3_c = r.read_i32()?;
        f40 = r.read_i32()?;
    }
    if file_version >= 584 {
        let _unknown = r.read_i32()?;
    }
    let guid = r.read_guid()?;
    let generation_count = r.read_i32()?;
    let generations = read_generations(r, generation_count, file_version >= 322)?;
    let mut engine_version: i32 = 0;
    if file_version >= 245 {
        engine_version = r.read_i32()?;
    }
    let mut cooker_version: i32 = 0;
    if file_version >= 277 {
        cooker_version = r.read_i32()?;
    }
    let mut compression_flags: i32 = 0;
    if file_version >= 334 {
        compression_flags = r.read_i32()?;
    }
    let mut u3unk60: i32 = 0;
    if file_version >= 482 {
        u3unk60 = r.read_i32()?;
    }
    Ok(
        (
            UnrealPackage {
                tag,
                file_version,
                licensee_version,
                package_flags,
                names: Vec::new(),
                exports: Vec::new(),
                imports: Vec::new(),
                guid,
                generations,
                headers_size,
                package_group,
                depends_offset,
                f38,
                f3_c,
                f40,
                engine_version,
                cooker_version,
                compression_flags,
                compressed_chunks: Vec::new(),
                u3unk60,
                rest: Vec::new(),
            },
            Directory {
                name_count,
                name_offset,
                export_count,
                export_offset,
                import_count,
                import_offset,
            },
        ),
    )
}

impl UnrealPackage {
    /// Decodes a package from the cursor on: the preamble where the cursor
    /// stands, the three tables where the preamble says they lie, and as
    /// `rest` every byte behind the furthest position that any of them
    /// reached. The cursor ends at the end of the source.
    pub fn parse(r: &mut ByteReader) -> (result: Result<Self, DecodeError>)
        ensures
            final(r).bytes() == old(r).bytes(),
            match package_at(old(r).bytes(), Ok(old(r).pos())) {
                Ok((v, q)) => result is Ok && result->Ok_0@ == v && final(r).pos() == q,
                Err(e) => result == Err::<Self, DecodeError>(e),
            },
    {
        let ghost s = r.bytes();
        let ghost header = header_at(s, Ok(r.pos()));
        let (mut this, directory) = read_header(r)?;
        let mut last = r.position();
        if directory.name_count > 0 {
            r.seek(directory.name_offset as usize);
            this.names = read_names(r, directory.name_count)?;
            let end = r.position();
            if end > last {
                last = end;
            }
        }
        let ghost names = table_at(
            name_record(),
            s,
            end_of(header),
            directory.name_count,
            directory.name_offset,
        );
        assert(names == Ok::<(Seq<NameView>, int), DecodeError>(
            (names_view(this.names@), last as int),
        )) by {
            if directory.name_count == 0 {
                assert(names_view(this.names@) =~= Seq::<NameView>::empty());
            }
        }
        if directory.import_count > 0 {
            r.seek(directory.import_offset as usize);
            this.imports = read_imports(r, directory.import_count, this.names.as_slice())?;
            let end = r.position();
            if end > last {
                last = end;
            }
        }
        let ghost imports = table_at(
            import_record(value_of(names)),
            s,
            end_of(names),
            directory.import_count,
            directory.import_offset,
        );
        assert(imports == Ok::<(Seq<ImportView>, int), DecodeError>(
            (imports_view(this.imports@), last as int),
        )) by {
            if directory.import_count == 0 {
                assert(imports_view(this.imports@) =~= Seq::<ImportView>::empty());
            }
        }
        if directory.export_count > 0 {
            r.seek(directory.export_offset as usize);
            this.exports = read_exports(r, directory.export_count, this.names.as_slice())?;
            let end = r.position();
            if end > last {
                last = end;
            }
        }
        let ghost exports = table_at(
            export_record(value_of(names)),
            s,
            end_of(imports),
            directory.export_count,
            directory.export_offset,
        );
        assert(exports == Ok::<(Seq<ExportView>, int), DecodeError>(
            (exports_view(this.exports@), last as int),
        )) by {
            if directory.export_count == 0 {
                assert(exports_view(this.exports@) =~= Seq::<ExportView>::empty());
            }
        }
        assert(last <= s.len());
        r.seek(last);
        this.rest = r.read_to_end();
        proof {
            assert(this.compressed_chunks@ =~= Seq::<()>::empty());
            assert(this@.header == value_of(header).0);
        }
        Ok(this)
    }
}

} // verus!
