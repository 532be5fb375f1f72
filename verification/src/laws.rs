use crate::error::DecodeError;
use crate::export::export_at;
use crate::generation::{generation_at, generation_width};
use crate::import::import_at;
use crate::layout::{end_of, lemma_repeat_len, repeat, value_of, Cursor, Decoded};
use crate::le::{le_i32, le_u32};
use crate::name::{name_ref_at, NameView};
use crate::package::{
    export_record, generation_record, header_at, import_record, name_record, package_at, table_at,
};
use crate::version::{
    combined_version, file_version_of, lemma_version_recombines, licensee_version_of,
};
use vstd::prelude::*;

verus! {

/// The 32-bit word that `s` holds at `p`.
pub open spec fn word_at(s: Seq<u8>, p: int) -> u32 {
    le_u32(s.subrange(p, p + 4))
}

/// The later of two positions.
pub open spec fn later(a: int, b: int) -> int {
    if b > a {
        b
    } else {
        a
    }
}

/// Record `i` of a run that decodes is what the record decoder gives where
/// the first `i` records end.
pub proof fn lemma_repeat_each<T>(
    rec: spec_fn(Seq<u8>, Cursor) -> Decoded<T>,
    s: Seq<u8>,
    c: Cursor,
    n: nat,
    i: nat,
)
    requires
        repeat(rec, s, c, n) is Ok,
        i < n,
    ensures
        repeat(rec, s, c, i) is Ok,
        rec(s, end_of(repeat(rec, s, c, i))) is Ok,
        value_of(repeat(rec, s, c, n)).len() == n,
        value_of(repeat(rec, s, c, n))[i as int] == value_of(
            rec(s, end_of(repeat(rec, s, c, i))),
        ),
    decreases n,
{
    lemma_repeat_len(rec, s, c, n);
    lemma_repeat_len(rec, s, c, (n - 1) as nat);
    if i + 1 < n {
        lemma_repeat_each(rec, s, c, (n - 1) as nat, i);
    }
}

/// A name reference that decodes holds a position inside the name table, and
/// decodes to the text of the entry at that position. It takes eight bytes.
pub proof fn lemma_name_ref_resolves(names: Seq<NameView>, s: Seq<u8>, p: int)
    requires
        name_ref_at(names, s, Ok(p)) is Ok,
    ensures
        0 <= word_at(s, p) < names.len(),
        value_of(name_ref_at(names, s, Ok(p))) == names[word_at(s, p) as int].text,
        end_of(name_ref_at(names, s, Ok(p))) == Ok::<int, DecodeError>(p + 8),
{
}

/// Every name of an import record that decodes is the text of the entry
/// that its reference points at, and that entry exists. The three references
/// stand at the start of the record, eight bytes in and twenty bytes in.
pub proof fn lemma_import_names_resolve(names: Seq<NameView>, s: Seq<u8>, p: int)
    requires
        import_at(names, s, Ok(p)) is Ok,
    ensures
        word_at(s, p) < names.len(),
        word_at(s, p + 8) < names.len(),
        word_at(s, p + 20) < names.len(),
        value_of(import_at(names, s, Ok(p))).class_package == names[word_at(s, p) as int].text,
        value_of(import_at(names, s, Ok(p))).class_name == names[word_at(s, p + 8) as int].text,
        value_of(import_at(names, s, Ok(p))).object_name == names[word_at(s, p + 20) as int].text,
        value_of(import_at(names, s, Ok(p))).package_idx == word_at(s, p + 16),
        end_of(import_at(names, s, Ok(p))) == Ok::<int, DecodeError>(p + 28),
{
    lemma_name_ref_resolves(names, s, p);
    lemma_name_ref_resolves(names, s, p + 8);
    lemma_name_ref_resolves(names, s, p + 20);
}

/// The name of an export record that decodes is the text of the entry that
/// its reference, twelve bytes in, points at, and that entry exists.
pub proof fn lemma_export_name_resolves(names: Seq<NameView>, s: Seq<u8>, p: int)
    requires
        export_at(names, s, Ok(p)) is Ok,
    ensures
        word_at(s, p + 12) < names.len(),
        value_of(export_at(names, s, Ok(p))).object_name == names[word_at(s, p + 12) as int].text,
{
    lemma_name_ref_resolves(names, s, p + 12);
}

/// A generation record that decodes takes eight bytes, and twelve where it
/// holds the count of net objects.
pub proof fn lemma_generation_width(net_objects: bool, s: Seq<u8>, p: int)
    requires
        generation_at(net_objects, s, Ok(p)) is Ok,
    ensures
        end_of(generation_at(net_objects, s, Ok(p))) == Ok::<int, DecodeError>(
            p + generation_width(net_objects),
        ),
        !net_objects ==> value_of(generation_at(net_objects, s, Ok(p))).net_object_count == 0,
{
}

/// A run of import records that decodes takes twenty-eight bytes a record.
pub proof fn lemma_import_run_span(names: Seq<NameView>, s: Seq<u8>, p: int, n: nat)
    requires
        repeat(import_record(names), s, Ok(p), n) is Ok,
    ensures
        end_of(repeat(import_record(names), s, Ok(p), n)) == Ok::<int, DecodeError>(p + 28 * n),
    decreases n,
{
    if n > 0 {
        lemma_import_run_span(names, s, p, (n - 1) as nat);
        lemma_import_names_resolve(names, s, p + 28 * (n - 1));
    }
}

/// A run of generation records that decodes takes eight bytes a record, and
/// twelve where the records hold the count of net objects.
pub proof fn lemma_generation_run_span(net_objects: bool, s: Seq<u8>, p: int, n: nat)
    requires
        repeat(generation_record(net_objects), s, Ok(p), n) is Ok,
    ensures
        end_of(repeat(generation_record(net_objects), s, Ok(p), n)) == Ok::<
            int,
            DecodeError,
        >(p + generation_width(net_objects) * n),
    decreases n,
{
    if n > 0 {
        lemma_generation_run_span(net_objects, s, p, (n - 1) as nat);
        lemma_generation_width(net_objects, s, p + generation_width(net_objects) * (n - 1));
        assert(generation_width(net_objects) * (n - 1) + generation_width(net_objects)
            == generation_width(net_objects) * n) by (nonlinear_arith);
    }
}

/// The preamble starts with the tag and the combined version word. The file
/// version is the low half of that word and the licensee version its high
/// half, so that the two together give the word back.
pub proof fn lemma_header_version(s: Seq<u8>, p: int)
    requires
        header_at(s, Ok(p)) is Ok,
    ensures
        value_of(header_at(s, Ok(p))).0.tag == word_at(s, p),
        value_of(header_at(s, Ok(p))).0.file_version == file_version_of(word_at(s, p + 4)),
        value_of(header_at(s, Ok(p))).0.licensee_version == licensee_version_of(
            word_at(s, p + 4),
        ),
        combined_version(
            value_of(header_at(s, Ok(p))).0.file_version,
            value_of(header_at(s, Ok(p))).0.licensee_version,
        ) == word_at(s, p + 4),
{
    reveal(header_at);
    lemma_version_recombines(word_at(s, p + 4));
}

/// The size of the headers is a field of the preamble from file version 249
/// on: there it is the signed word behind the version word. Before that
/// version it is zero and takes no bytes, so that where the package group is
/// absent too, the package flags stand in its place.
pub proof fn lemma_headers_size_gate(s: Seq<u8>, p: int)
    requires
        header_at(s, Ok(p)) is Ok,
    ensures
        ({
            let header = value_of(header_at(s, Ok(p))).0;
            &&& header.file_version >= 249 ==> header.headers_size == le_i32(
                s.subrange(p + 8, p + 12),
            )
            &&& header.file_version < 249 ==> header.headers_size == 0 && header.package_flags
                == le_i32(s.subrange(p + 8, p + 12))
            &&& 249 <= header.file_version < 269 ==> header.package_flags == le_i32(
                s.subrange(p + 12, p + 16),
            )
        }),
{
    reveal(header_at);
}

/// Every import of a package that decodes is an import record of the file,
/// decoded against the names of that same package: each of its three names
/// is the text of an entry of the name table.
pub proof fn lemma_package_imports_resolve(s: Seq<u8>, p: int, i: int)
    requires
        package_at(s, Ok(p)) is Ok,
        0 <= i < value_of(package_at(s, Ok(p))).imports.len(),
    ensures
        ({
            let package = value_of(package_at(s, Ok(p)));
            let start = value_of(header_at(s, Ok(p))).1.import_offset + 28 * i;
            &&& import_at(package.names, s, Ok(start)) is Ok
            &&& package.imports[i] == value_of(import_at(package.names, s, Ok(start)))
            &&& word_at(s, start) < package.names.len()
            &&& word_at(s, start + 8) < package.names.len()
            &&& word_at(s, start + 20) < package.names.len()
            &&& package.imports[i].class_package == package.names[word_at(s, start) as int].text
            &&& package.imports[i].class_name == package.names[word_at(s, start + 8) as int].text
            &&& package.imports[i].object_name == package.names[word_at(
                s,
                start + 20,
            ) as int].text
        }),
{
    let header = header_at(s, Ok(p));
    let directory = value_of(header).1;
    let names = table_at(
        name_record(),
        s,
        end_of(header),
        directory.name_count,
        directory.name_offset,
    );
    let rec = import_record(value_of(names));
    let first: Cursor = Ok(directory.import_offset as int);
    let n = directory.import_count as nat;
    lemma_repeat_len(rec, s, first, n);
    lemma_repeat_each(rec, s, first, n, i as nat);
    lemma_import_run_span(value_of(names), s, directory.import_offset as int, i as nat);
    lemma_import_names_resolve(value_of(names), s, directory.import_offset + 28 * i);
}

/// Where record `i` of a run that starts at `offset` begins: where the `i`
/// records before it end.
pub open spec fn record_start<T>(
    rec: spec_fn(Seq<u8>, Cursor) -> Decoded<T>,
    s: Seq<u8>,
    offset: u32,
    i: int,
) -> int {
    end_of(repeat(rec, s, Ok(offset as int), i as nat))->Ok_0
}

/// Every export of a package that decodes is an export record of the file,
/// decoded against the names of that same package: its name is the text of
/// an entry of the name table.
pub proof fn lemma_package_exports_resolve(s: Seq<u8>, p: int, i: int)
    requires
        package_at(s, Ok(p)) is Ok,
        0 <= i < value_of(package_at(s, Ok(p))).exports.len(),
    ensures
        ({
            let package = value_of(package_at(s, Ok(p)));
            let start = record_start(
                export_record(package.names),
                s,
                value_of(header_at(s, Ok(p))).1.export_offset,
                i,
            );
            &&& export_at(package.names, s, Ok(start)) is Ok
            &&& package.exports[i] == value_of(export_at(package.names, s, Ok(start)))
            &&& word_at(s, start + 12) < package.names.len()
            &&& package.exports[i].object_name == package.names[word_at(
                s,
                start + 12,
            ) as int].text
        }),
{
    let header = header_at(s, Ok(p));
    let directory = value_of(header).1;
    let names = table_at(
        name_record(),
        s,
        end_of(header),
        directory.name_count,
        directory.name_offset,
    );
    let rec = export_record(value_of(names));
    let first: Cursor = Ok(directory.export_offset as int);
    let n = directory.export_count as nat;
    lemma_repeat_len(rec, s, first, n);
    lemma_repeat_each(rec, s, first, n, i as nat);
    let start = record_start(rec, s, directory.export_offset, i);
    assert(export_at(value_of(names), s, Ok(start)) is Ok);
    lemma_export_name_resolves(value_of(names), s, start);
}

/// Where a table with records ends; zero for a table of none, which is never
/// visited.
pub open spec fn table_end(end: Cursor, count: u32) -> int {
    if count > 0 {
        end->Ok_0
    } else {
        0
    }
}

/// A preamble that decodes starts and ends inside the file.
pub proof fn lemma_header_ends_inside(s: Seq<u8>, p: int)
    requires
        header_at(s, Ok(p)) is Ok,
    ensures
        0 <= p <= s.len(),
        0 <= end_of(header_at(s, Ok(p)))->Ok_0 <= s.len(),
{
    reveal(header_at);
}

/// The rest of a package that decodes starts at the furthest position that
/// the preamble or any table with records reached, wherever in the file the
/// tables lie and in whatever order, and runs to the end of the file. That
/// position lies inside the file.
pub proof fn lemma_rest_starts_at_furthest_end(s: Seq<u8>, p: int)
    requires
        package_at(s, Ok(p)) is Ok,
    ensures
        ({
            let package = value_of(package_at(s, Ok(p)));
            let header = header_at(s, Ok(p));
            let directory = value_of(header).1;
            let names_end = table_end(
                end_of(repeat(
                    name_record(),
                    s,
                    Ok(directory.name_offset as int),
                    directory.name_count as nat,
                )),
                directory.name_count,
            );
            let imports_end = table_end(
                end_of(repeat(
                    import_record(package.names),
                    s,
                    Ok(directory.import_offset as int),
                    directory.import_count as nat,
                )),
                directory.import_count,
            );
            let exports_end = table_end(
                end_of(repeat(
                    export_record(package.names),
                    s,
                    Ok(directory.export_offset as int),
                    directory.export_count as nat,
                )),
                directory.export_count,
            );
            let furthest = later(
                later(later(end_of(header)->Ok_0, names_end), imports_end),
                exports_end,
            );
            &&& 0 <= furthest <= s.len()
            &&& package.rest == s.subrange(furthest, s.len() as int)
            &&& end_of(package_at(s, Ok(p))) == Ok::<int, DecodeError>(s.len() as int)
        }),
{
    let header = header_at(s, Ok(p));
    let directory = value_of(header).1;
    let package = value_of(package_at(s, Ok(p)));
    lemma_header_ends_inside(s, p);
    if directory.name_count > 0 {
        lemma_repeat_each(
            name_record(),
            s,
            Ok(directory.name_offset as int),
            directory.name_count as nat,
            (directory.name_count - 1) as nat,
        );
    }
    if directory.import_count > 0 {
        lemma_import_run_span(
            package.names,
            s,
            directory.import_offset as int,
            directory.import_count as nat,
        );
        lemma_repeat_each(
            import_record(package.names),
            s,
            Ok(directory.import_offset as int),
            directory.import_count as nat,
            (directory.import_count - 1) as nat,
        );
    }
    if directory.export_count > 0 {
        lemma_repeat_each(
            export_record(package.names),
            s,
            Ok(directory.export_offset as int),
            directory.export_count as nat,
            (directory.export_count - 1) as nat,
        );
    }
}

} // verus!
