//! The deployment archive: a gzip-compressed tar stream holding the
//! manifest under `config.json` plus the function and asset files, and the
//! report that reads such an archive back.

use vstd::prelude::*;

use crate::codec::{
    config_view, encode_config, load_configuration, spec_full_config, spec_full_legacy,
    spec_legacy_upgrade, spec_write_config, ConfigView,
};
use crate::configuration::ConfigurationFile;
use crate::strutil::{contains_sub, ends_with, find_char, starts_with, str_eq, string_from_utf8};
use std::io::Read;
use std::io::Write;

verus! {

/// One file to be stored in the archive: its entry name and its bytes.
#[derive(Debug)]
pub struct ArchiveFile {
    pub name: String,
    pub data: Vec<u8>,
}

/// Archive files as `(name, bytes)` pairs.
pub open spec fn archive_views(files: Seq<ArchiveFile>) -> Seq<(Seq<char>, Seq<u8>)> {
    files.map_values(|f: ArchiveFile| (f.name@, f.data@))
}

/// An entry name in the normal form the tar crate stores verbatim: it is
/// non-empty and relative, free of NUL characters, and none of its
/// slash-separated segments is empty, `.` or `..` (the crate drops or
/// rejects such segments, so only normal-form names round-trip unchanged).
pub open spec fn wf_entry_name(name: Seq<char>) -> bool {
    &&& name.len() > 0
    &&& forall|j: int| 0 <= j < name.len() ==> name[j] != '\0'
    &&& name[0] != '/'
    &&& name[name.len() - 1] != '/'
    &&& !crate::strutil::spec_contains(name, "//"@)
    &&& name != "."@
    &&& name != ".."@
    &&& !crate::strutil::spec_starts_with(name, "./"@)
    &&& !crate::strutil::spec_starts_with(name, "../"@)
    &&& !crate::strutil::spec_ends_with(name, "/."@)
    &&& !crate::strutil::spec_ends_with(name, "/.."@)
    &&& !crate::strutil::spec_contains(name, "/./"@)
    &&& !crate::strutil::spec_contains(name, "/../"@)
}

/// Every entry name is in tar-normal form.
pub open spec fn wf_entries(es: Seq<(Seq<char>, Seq<u8>)>) -> bool {
    forall|i: int| 0 <= i < es.len() ==> wf_entry_name((#[trigger] es[i]).0)
}

/// Checks that a name is in tar-normal form.
pub fn check_entry_name(name: &str) -> (r: bool)
    ensures
        r == wf_entry_name(name@),
{
    let len = name.unicode_len();
    if len == 0 {
        return false;
    }
    find_char(name, '\0').is_none() && name.get_char(0) != '/' && name.get_char(len - 1) != '/'
        && !contains_sub(name, "//") && !str_eq(name, ".") && !str_eq(name, "..") && !starts_with(
        name,
        "./",
    ) && !starts_with(name, "../") && !ends_with(name, "/.") && !ends_with(name, "/..")
        && !contains_sub(name, "/./") && !contains_sub(name, "/../")
}

/// A failure while building or reading the archive container.
#[derive(Debug, Clone, Copy, PartialEq, Eq, Structural)]
pub enum PackError {
    Archive,
}

impl PackError {
    pub fn text(&self) -> (r: &'static str) {
        "unable to build or read the archive"
    }
}

// ---------------------------------------------------------------------------
// Trusted container wrappers
// ---------------------------------------------------------------------------
/// An in-memory tar archive under construction; the builder itself comes
/// from the tar crate.
#[verifier::external_body]
pub struct TarBuilder {
    inner: tar::Builder<Vec<u8>>,
}

/// What the in-memory archive under construction holds.
pub uninterp spec fn tar_contents(b: TarBuilder) -> Seq<(Seq<char>, Seq<u8>)>;

/// The tar stream those entries serialize to.
pub uninterp spec fn tar_stream_of(entries: Seq<(Seq<char>, Seq<u8>)>) -> Seq<u8>;

/// Relies on tar::Builder::new over an in-memory buffer: a fresh archive
/// holds no entries.
#[verifier::external_body]
fn tar_new() -> (b: TarBuilder)
    ensures
        tar_contents(b) == Seq::<(Seq<char>, Seq<u8>)>::empty(),
{
    TarBuilder { inner: tar::Builder::new(Vec::new()) }
}

/// Relies on tar::Builder::append_data: for a tar-normal relative name it
/// stores exactly that name and the given bytes (long names go through the
/// GNU extension verbatim), and it cannot fail, because the underlying
/// writer is an in-memory buffer.
#[verifier::external_body]
fn tar_add(b: &mut TarBuilder, name: &str, data: &[u8]) -> (r: Result<(), PackError>)
    requires
        wf_entry_name(name@),
    ensures
        r is Ok,
        tar_contents(*final(b)) == tar_contents(*old(b)).push((name@, data@)),
{
    let mut header = tar::Header::new_gnu();
    header.set_size(data.len() as u64);
    header.set_mode(0o644);
    match b.inner.append_data(&mut header, name, data) {
        Ok(()) => Ok(()),
        Err(_) => Err(PackError::Archive),
    }
}

/// Relies on tar::Builder::into_inner: it finishes the archive and returns
/// the stream, a function of the appended entries alone; writing the
/// termination blocks into an in-memory buffer cannot fail.
#[verifier::external_body]
fn tar_finish(b: TarBuilder) -> (r: Result<Vec<u8>, PackError>)
    ensures
        r is Ok,
        r matches Ok(bytes) ==> bytes@ == tar_stream_of(tar_contents(b)),
{
    match b.inner.into_inner() {
        Ok(v) => Ok(v),
        Err(_) => Err(PackError::Archive),
    }
}

/// Relies on tar::Archive over a byte slice: reading a stream this library
/// wrote yields exactly the entries that were appended, in order.
#[verifier::external_body]
fn tar_parse(data: &[u8]) -> (r: Result<Vec<ArchiveFile>, PackError>)
    ensures
        r is Err ==> forall|es: Seq<(Seq<char>, Seq<u8>)>|
            !(wf_entries(es) && data@ == tar_stream_of(es)),
        r matches Ok(files) ==> forall|es: Seq<(Seq<char>, Seq<u8>)>|
            wf_entries(es) && data@ == tar_stream_of(es) ==> archive_views(files@) == es,
{
    let mut archive = tar::Archive::new(data);
    let mut out = Vec::new();
    for entry in archive.entries().map_err(|_| PackError::Archive)? {
        let mut entry = entry.map_err(|_| PackError::Archive)?;
        let path = entry.path().map_err(|_| PackError::Archive)?;
        let name = path.to_str().ok_or(PackError::Archive)?.to_string();
        drop(path);
        let mut data = Vec::new();
        entry.read_to_end(&mut data).map_err(|_| PackError::Archive)?;
        out.push(ArchiveFile { name, data });
    }
    Ok(out)
}

/// What gzip at best compression produces for the given bytes.
pub uninterp spec fn gzip_of(data: Seq<u8>) -> Seq<u8>;

/// Relies on flate2's GzEncoder at best compression: the output is a
/// function of the input bytes alone for a given library version, and
/// compressing into an in-memory buffer cannot fail.
#[verifier::external_body]
fn gzip_pack(data: &[u8]) -> (r: Result<Vec<u8>, PackError>)
    ensures
        r is Ok,
        r matches Ok(out) ==> out@ == gzip_of(data@),
{
    let mut enc = flate2::write::GzEncoder::new(Vec::new(), flate2::Compression::best());
    if enc.write_all(data).is_err() {
        return Err(PackError::Archive);
    }
    match enc.finish() {
        Ok(v) => Ok(v),
        Err(_) => Err(PackError::Archive),
    }
}

/// Relies on flate2's GzDecoder: decompression restores exactly the bytes
/// that were compressed.
#[verifier::external_body]
fn gzip_unpack(data: &[u8]) -> (r: Result<Vec<u8>, PackError>)
    ensures
        r is Err ==> forall|d: Seq<u8>| data@ != gzip_of(d),
        r matches Ok(out) ==> forall|d: Seq<u8>| data@ == gzip_of(d) ==> out@ == d,
{
    let mut out = Vec::new();
    let mut dec = flate2::read::GzDecoder::new(data);
    match dec.read_to_end(&mut out) {
        Ok(_) => Ok(out),
        Err(_) => Err(PackError::Archive),
    }
}

/// What the size crate prints for a byte count.
pub uninterp spec fn size_text_of(bytes: int) -> Seq<char>;

/// Relies on size::Size's display: the text is a function of the byte
/// count alone.
#[verifier::external_body]
pub fn size_text(bytes: u64) -> (r: String)
    ensures
        r@ == size_text_of(bytes as int),
{
    size::Size::from_bytes(bytes).to_string()
}

// ---------------------------------------------------------------------------
// Packing
// ---------------------------------------------------------------------------
/// Entry names under a directory prefix.
pub open spec fn spec_prefix_entries(
    prefix: Seq<char>,
    es: Seq<(Seq<char>, Seq<u8>)>,
) -> Seq<(Seq<char>, Seq<u8>)> {
    es.map_values(|e: (Seq<char>, Seq<u8>)| (prefix + e.0, e.1))
}

/// The archive's logical entry set: the manifest text under `config.json`,
/// then the function files under `functions/`, then the asset files under
/// `assets/`.
pub open spec fn spec_pack_entries(
    cfg_text: Seq<char>,
    fns: Seq<(Seq<char>, Seq<u8>)>,
    assets: Seq<(Seq<char>, Seq<u8>)>,
) -> Seq<(Seq<char>, Seq<u8>)> {
    seq![("config.json"@, vstd::utf8::encode_utf8(cfg_text))] + spec_prefix_entries(
        "functions/"@,
        fns,
    ) + spec_prefix_entries("assets/"@, assets)
}

/// Whether every function and asset file, under its directory prefix,
/// yields a tar-normal entry name.
pub open spec fn spec_pack_names_ok(
    fns: Seq<(Seq<char>, Seq<u8>)>,
    assets: Seq<(Seq<char>, Seq<u8>)>,
) -> bool {
    &&& forall|i: int| 0 <= i < fns.len() ==> wf_entry_name("functions/"@ + (#[trigger] fns[i]).0)
    &&& forall|i: int|
        0 <= i < assets.len() ==> wf_entry_name("assets/"@ + (#[trigger] assets[i]).0)
}

fn names_ok(prefix: &str, files: &Vec<ArchiveFile>) -> (r: bool)
    ensures
        r == (forall|i: int|
            0 <= i < archive_views(files@).len() ==> wf_entry_name(
                prefix@ + (#[trigger] archive_views(files@)[i]).0,
            )),
{
    let n = files.len();
    let mut i: usize = 0;
    while i < n
        invariant
            0 <= i <= n,
            n == files@.len(),
            forall|j: int|
                0 <= j < i ==> wf_entry_name(prefix@ + (#[trigger] archive_views(files@)[j]).0),
        decreases n - i,
    {
        let mut name = String::from_str(prefix);
        name.append(files[i].name.as_str());
        proof {
            assert(name@ == prefix@ + archive_views(files@)[i as int].0);
        }
        if !check_entry_name(name.as_str()) {
            return false;
        }
        i += 1;
    }
    true
}

fn prefixed_entries(prefix: &str, mut files: Vec<ArchiveFile>, out: &mut Vec<ArchiveFile>)
    ensures
        archive_views(final(out)@) == archive_views(old(out)@) + spec_prefix_entries(
            prefix@,
            archive_views(files@),
        ),
{
    let ghost orig = archive_views(files@);
    let n0 = files.len();
    let mut i: usize = 0;
    proof {
        assert(archive_views(old(out)@) + spec_prefix_entries(prefix@, orig.skip(0)) =~= archive_views(
            old(out)@,
        ) + spec_prefix_entries(prefix@, orig));
    }
    while files.len() > 0
        invariant
            orig.len() == n0,
            i + files@.len() == orig.len(),
            0 <= i <= orig.len(),
            archive_views(files@) =~= orig.skip(i as int),
            archive_views(out@) =~= archive_views(old(out)@) + spec_prefix_entries(
                prefix@,
                orig.take(i as int),
            ),
        decreases files@.len(),
    {
        let ghost fv_before = archive_views(files@);
        let f = files.remove(0);
        proof {
            assert(archive_views(files@) =~= fv_before.drop_first());
            assert(fv_before.drop_first() =~= orig.skip(i + 1));
        }
        let mut name = String::from_str(prefix);
        name.append(f.name.as_str());
        let ghost before = archive_views(out@);
        out.push(ArchiveFile { name, data: f.data });
        proof {
            assert(orig.skip(i as int)[0] == orig[i as int]);
            assert(archive_views(out@) =~= before.push((prefix@ + orig[i as int].0, orig[i as int].1)));
            assert(spec_prefix_entries(prefix@, orig.take(i + 1)) =~= spec_prefix_entries(
                prefix@,
                orig.take(i as int),
            ).push((prefix@ + orig[i as int].0, orig[i as int].1)));
            assert(archive_views(out@) =~= archive_views(old(out)@) + spec_prefix_entries(
                prefix@,
                orig.take(i + 1),
            ));
        }
        i += 1;
    }
    proof {
        assert(orig.take(i as int) =~= orig);
    }
}

/// Builds the archive's entry list from a manifest and its files: exactly
/// when every entry name is tar-normal, and then the entries are the
/// manifest under `config.json` followed by the prefixed files.
pub fn pack_entries(config: &ConfigurationFile, functions: Vec<ArchiveFile>, assets: Vec<
    ArchiveFile,
>) -> (r: Result<Vec<ArchiveFile>, PackError>)
    ensures
        r is Ok <==> wf_entry_name("config.json"@) && spec_pack_names_ok(
            archive_views(functions@),
            archive_views(assets@),
        ),
        r matches Ok(es) ==> archive_views(es@) == spec_pack_entries(
            spec_write_config(config_view(*config)),
            archive_views(functions@),
            archive_views(assets@),
        ) && wf_entries(archive_views(es@)),
{
    let ghost fnv = archive_views(functions@);
    let ghost asv = archive_views(assets@);
    let name = String::from_str("config.json");
    if !check_entry_name(name.as_str()) {
        return Err(PackError::Archive);
    }
    if !names_ok("functions/", &functions) {
        return Err(PackError::Archive);
    }
    if !names_ok("assets/", &assets) {
        return Err(PackError::Archive);
    }
    let mut out: Vec<ArchiveFile> = Vec::new();
    let text = encode_config(config);
    let data = text.as_str().as_bytes_vec();
    out.push(ArchiveFile { name, data });
    proof {
        assert(archive_views(out@) =~= seq![
            ("config.json"@, vstd::utf8::encode_utf8(spec_write_config(config_view(*config)))),
        ]);
    }
    prefixed_entries("functions/", functions, &mut out);
    prefixed_entries("assets/", assets, &mut out);
    let ghost es = archive_views(out@);
    proof {
        assert(es =~= spec_pack_entries(spec_write_config(config_view(*config)), fnv, asv));
        assert forall|k: int| 0 <= k < es.len() implies wf_entry_name((#[trigger] es[k]).0) by {
            if k == 0 {
                assert(es[0].0 == "config.json"@);
            } else if k < 1 + fnv.len() {
                assert(es[k] == spec_prefix_entries("functions/"@, fnv)[k - 1]);
                assert(es[k].0 == "functions/"@ + fnv[k - 1].0);
            } else {
                assert(es[k] == spec_prefix_entries("assets/"@, asv)[k - 1 - fnv.len()]);
                assert(es[k].0 == "assets/"@ + asv[k - 1 - fnv.len()].0);
            }
        }
    }
    Ok(out)
}

/// Serializes an entry list of tar-normal names as a tar stream and
/// compresses it; with such names this cannot fail.
pub fn compress_entries(entries: &Vec<ArchiveFile>) -> (r: Result<Vec<u8>, PackError>)
    requires
        wf_entries(archive_views(entries@)),
    ensures
        r is Ok,
        r matches Ok(bytes) ==> bytes@ == gzip_of(tar_stream_of(archive_views(entries@))),
{
    let mut builder = tar_new();
    let n = entries.len();
    let mut i: usize = 0;
    proof {
        assert(archive_views(entries@).take(0) =~= Seq::<(Seq<char>, Seq<u8>)>::empty());
    }
    while i < n
        invariant
            0 <= i <= n,
            n == entries@.len(),
            wf_entries(archive_views(entries@)),
            tar_contents(builder) == archive_views(entries@).take(i as int),
        decreases n - i,
    {
        let e = &entries[i];
        proof {
            assert(archive_views(entries@)[i as int].0 == entries@[i as int].name@);
        }
        match tar_add(&mut builder, e.name.as_str(), e.data.as_slice()) {
            Ok(()) => {},
            Err(err) => {
                return Err(err);
            },
        }
        proof {
            assert(archive_views(entries@).take(i + 1) =~= archive_views(entries@).take(
                i as int,
            ).push((entries@[i as int].name@, entries@[i as int].data@)));
        }
        i += 1;
    }
    proof {
        assert(archive_views(entries@).take(n as int) =~= archive_views(entries@));
    }
    let stream = match tar_finish(builder) {
        Ok(v) => v,
        Err(err) => {
            return Err(err);
        },
    };
    gzip_pack(stream.as_slice())
}

/// Packs a manifest and its files into one compressed archive. It succeeds
/// exactly when every entry name is tar-normal, and the archive is then
/// the compressed tar stream of the manifest text and the prefixed files.
pub fn compress(config: &ConfigurationFile, functions: Vec<ArchiveFile>, assets: Vec<ArchiveFile>)
    -> (r: Result<Vec<u8>, PackError>)
    ensures
        r is Ok <==> wf_entry_name("config.json"@) && spec_pack_names_ok(
            archive_views(functions@),
            archive_views(assets@),
        ),
        r matches Ok(bytes) ==> bytes@ == gzip_of(
            tar_stream_of(
                spec_pack_entries(
                    spec_write_config(config_view(*config)),
                    archive_views(functions@),
                    archive_views(assets@),
                ),
            ),
        ),
{
    let entries = match pack_entries(config, functions, assets) {
        Ok(entries) => entries,
        Err(e) => {
            return Err(e);
        },
    };
    compress_entries(&entries)
}

// ---------------------------------------------------------------------------
// Reporting
// ---------------------------------------------------------------------------
/// The manifest as found (or not) inside an archive.
#[derive(Debug)]
pub enum ReportConfig {
    Found(ConfigurationFile),
    Missing,
    Invalid,
}

/// The ghost shape of the found manifest.
pub ghost enum ReportConfigView {
    Found(ConfigView),
    Missing,
    Invalid,
}

pub open spec fn report_config_matches(rc: ReportConfig, v: ReportConfigView) -> bool {
    match (rc, v) {
        (ReportConfig::Found(c), ReportConfigView::Found(cv)) => config_view(c) == cv,
        (ReportConfig::Missing, ReportConfigView::Missing) => true,
        (ReportConfig::Invalid, ReportConfigView::Invalid) => true,
        _ => false,
    }
}

/// The first entry that is named like the manifest file: `config.json`
/// itself, or any path ending in `/config.json`.
pub open spec fn spec_is_config_name(name: Seq<char>) -> bool {
    name == "config.json"@ || crate::strutil::spec_ends_with(name, "/config.json"@)
}

pub open spec fn spec_find_config(es: Seq<(Seq<char>, Seq<u8>)>) -> Option<Seq<u8>>
    decreases es.len(),
{
    if es.len() == 0 {
        None
    } else if spec_is_config_name(es.first().0) {
        Some(es.first().1)
    } else {
        spec_find_config(es.drop_first())
    }
}

/// What the report says about the manifest: the entry's bytes must be
/// UTF-8 and must read under the current schema or, failing that, a legacy
/// one.
pub open spec fn spec_report_config(es: Seq<(Seq<char>, Seq<u8>)>) -> ReportConfigView {
    match spec_find_config(es) {
        None => ReportConfigView::Missing,
        Some(bytes) => if !vstd::utf8::valid_utf8(bytes) {
            ReportConfigView::Invalid
        } else {
            let text = vstd::utf8::decode_utf8(bytes);
            match spec_full_config(text) {
                Some(v) => ReportConfigView::Found(v),
                None => match spec_full_legacy(text) {
                    Some(lv) => ReportConfigView::Found(spec_legacy_upgrade(lv)),
                    None => ReportConfigView::Invalid,
                },
            }
        },
    }
}

/// The file listing as `(name, size)` pairs.
pub open spec fn listing_views(l: Seq<(String, u64)>) -> Seq<(Seq<char>, int)> {
    l.map_values(|p: (String, u64)| (p.0@, p.1 as int))
}

/// Entry names with their uncompressed sizes.
pub open spec fn spec_entry_sizes(es: Seq<(Seq<char>, Seq<u8>)>) -> Seq<(Seq<char>, int)> {
    es.map_values(|e: (Seq<char>, Seq<u8>)| (e.0, e.1.len() as int))
}

/// The total uncompressed size.
pub open spec fn spec_entries_size(es: Seq<(Seq<char>, Seq<u8>)>) -> int
    decreases es.len(),
{
    if es.len() == 0 {
        0
    } else {
        spec_entries_size(es.drop_last()) + es.last().1.len()
    }
}

/// Everything the report shows: the file listing, the manifest, and the
/// two byte totals.
#[derive(Debug)]
pub struct ArchiveReport {
    pub files: Vec<(String, u64)>,
    pub config: ReportConfig,
    pub uncompressed: u64,
    pub compressed: u64,
}

fn find_config(files: &Vec<ArchiveFile>) -> (r: Option<usize>)
    ensures
        match r {
            Some(i) => 0 <= i < files@.len() && spec_find_config(archive_views(files@)) == Some(
                files@[i as int].data@,
            ),
            None => spec_find_config(archive_views(files@)) is None,
        },
{
    let n = files.len();
    let mut i: usize = 0;
    proof {
        assert(archive_views(files@).skip(0) =~= archive_views(files@));
    }
    while i < n
        invariant
            0 <= i <= n,
            n == files@.len(),
            spec_find_config(archive_views(files@)) == spec_find_config(
                archive_views(files@).skip(i as int),
            ),
        decreases n - i,
    {
        let ghost rem = archive_views(files@).skip(i as int);
        proof {
            assert(rem.first() == archive_views(files@)[i as int]);
            assert(rem.drop_first() =~= archive_views(files@).skip(i + 1));
        }
        let name = &files[i].name;
        if str_eq(name.as_str(), "config.json") || ends_with(name.as_str(), "/config.json") {
            return Some(i);
        }
        i += 1;
    }
    proof {
        assert(archive_views(files@).skip(n as int) =~= Seq::<(Seq<char>, Seq<u8>)>::empty());
    }
    None
}

/// Builds the report from a decoded entry list; fails only when the total
/// uncompressed size cannot be counted in 64 bits.
pub fn report_entries(files: &Vec<ArchiveFile>, compressed_len: u64) -> (r: Result<
    ArchiveReport,
    PackError,
>)
    ensures
        ({
            let es = archive_views(files@);
            match r {
                Ok(rep) => {
                    &&& listing_views(rep.files@)
                        == spec_entry_sizes(es)
                    &&& report_config_matches(rep.config, spec_report_config(es))
                    &&& rep.uncompressed == spec_entries_size(es)
                    &&& rep.compressed == compressed_len
                },
                Err(_) => spec_entries_size(es) >= 0x1_0000_0000_0000_0000,
            }
        }),
{
    let ghost es = archive_views(files@);
    let n = files.len();
    let mut listing: Vec<(String, u64)> = Vec::new();
    let mut total: u64 = 0;
    let mut i: usize = 0;
    proof {
        assert(listing_views(listing@) =~= spec_entry_sizes(
            es.take(0),
        ));
    }
    while i < n
        invariant
            0 <= i <= n,
            n == files@.len(),
            es == archive_views(files@),
            listing_views(listing@) =~= spec_entry_sizes(
                es.take(i as int),
            ),
            total == spec_entries_size(es.take(i as int)),
        decreases n - i,
    {
        let name = files[i].name.clone();
        let size = files[i].data.len() as u64;
        let ghost nmv = name@;
        let ghost l0 = listing@;
        let ghost before = listing_views(listing@);
        listing.push((name, size));
        total = match total.checked_add(size) {
            Some(t) => t,
            None => {
                proof {
                    lemma_entries_size_grows(es, i + 1);
                    assert(es.take(i + 1).drop_last() =~= es.take(i as int));
                    assert(es.take(i + 1).last() == es[i as int]);
                }
                return Err(PackError::Archive);
            },
        };
        proof {
            assert(es.take(i + 1).drop_last() =~= es.take(i as int));
            assert(es.take(i + 1).last() == es[i as int]);
            assert(nmv == es[i as int].0);
            assert(size as int == es[i as int].1.len() as int);
            let mapped = listing_views(listing@);
            assert(es.len() == files@.len());
            assert(before =~= spec_entry_sizes(es.take(i as int)));
            assert(before.len() == l0.len());
            assert(l0.len() == i);
            assert(mapped.len() == listing@.len());
            assert(listing@.len() == l0.len() + 1);
            assert(listing@.drop_last() =~= l0);
            assert(listing@.last().0@ == nmv);
            assert(listing@.last().1 == size);
            assert forall|j: int| 0 <= j < mapped.len() implies mapped[j] == spec_entry_sizes(
                es.take(i + 1),
            )[j] by {
                assert(0 <= j < es.take(i + 1).len());
                assert(mapped[j] == (listing@[j].0@, listing@[j].1 as int));
                assert(spec_entry_sizes(es.take(i + 1))[j] == (es.take(i + 1)[j].0, es.take(
                    i + 1,
                )[j].1.len() as int));
                if j < i {
                    assert(listing@[j] == l0[j]);
                    assert(before[j] == (l0[j].0@, l0[j].1 as int));
                    assert(before[j] == spec_entry_sizes(es.take(i as int))[j]);
                    assert(spec_entry_sizes(es.take(i as int))[j] == (es.take(i as int)[j].0,
                        es.take(i as int)[j].1.len() as int));
                    assert(es.take(i as int)[j] == es[j]);
                    assert(es.take(i + 1)[j] == es[j]);
                } else {
                    assert(listing@[j] == listing@.last());
                    assert(mapped[j] == (nmv, size as int));
                    assert(es.take(i + 1)[j] == es[i as int]);
                }
            }
            assert(mapped =~= spec_entry_sizes(es.take(i + 1)));
        }
        i += 1;
    }
    proof {
        assert(es.take(n as int) =~= es);
    }
    let config = match find_config(files) {
        None => ReportConfig::Missing,
        Some(idx) => {
            let bytes = files[idx].data.clone();
            proof {
                assert(bytes@ == files@[idx as int].data@);
            }
            match string_from_utf8(bytes) {
                None => ReportConfig::Invalid,
                Some(text) => match load_configuration(text.as_str()) {
                    Ok(c) => ReportConfig::Found(c),
                    Err(_) => ReportConfig::Invalid,
                },
            }
        },
    };
    Ok(ArchiveReport { files: listing, config, uncompressed: total, compressed: compressed_len })
}

/// The running total only grows.
proof fn lemma_entries_size_grows(es: Seq<(Seq<char>, Seq<u8>)>, i: int)
    requires
        0 <= i <= es.len(),
    ensures
        spec_entries_size(es.take(i)) <= spec_entries_size(es),
    decreases es.len() - i,
{
    if i == es.len() {
        assert(es.take(i) =~= es);
    } else {
        lemma_entries_size_grows(es, i + 1);
        assert(es.take(i + 1).drop_last() =~= es.take(i));
        assert(spec_entries_size(es.take(i)) <= spec_entries_size(es.take(i + 1)));
    }
}

/// Reads a compressed archive back: decompresses, lists the entries, and
/// decodes the manifest.
pub fn report(data: &[u8]) -> (r: Result<ArchiveReport, PackError>)
    ensures
        r matches Ok(rep) ==> forall|es: Seq<(Seq<char>, Seq<u8>)>|
            wf_entries(es) && data@ == gzip_of(tar_stream_of(es)) ==> {
                &&& listing_views(rep.files@)
                    == spec_entry_sizes(es)
                &&& report_config_matches(rep.config, spec_report_config(es))
                &&& rep.uncompressed == spec_entries_size(es)
                &&& rep.compressed == data@.len()
            },
        r is Err ==> forall|es: Seq<(Seq<char>, Seq<u8>)>|
            wf_entries(es) && data@ == gzip_of(tar_stream_of(es)) ==> spec_entries_size(es)
                >= 0x1_0000_0000_0000_0000,
{
    let compressed_len = data.len() as u64;
    let stream = match gzip_unpack(data) {
        Ok(v) => v,
        Err(e) => {
            return Err(e);
        },
    };
    let files = match tar_parse(stream.as_slice()) {
        Ok(v) => v,
        Err(e) => {
            proof {
                assert forall|es: Seq<(Seq<char>, Seq<u8>)>|
                    wf_entries(es) && data@ == gzip_of(tar_stream_of(es)) implies spec_entries_size(
                    es,
                ) >= 0x1_0000_0000_0000_0000 by {
                    assert(stream@ == tar_stream_of(es));
                }
            }
            return Err(e);
        },
    };
    let result = report_entries(&files, compressed_len);
    proof {
        match &result {
            Ok(rep) => {
                assert forall|es: Seq<(Seq<char>, Seq<u8>)>|
                    wf_entries(es) && data@ == gzip_of(tar_stream_of(es)) implies {
                    &&& listing_views(rep.files@)
                        == spec_entry_sizes(es)
                    &&& report_config_matches(rep.config, spec_report_config(es))
                    &&& rep.uncompressed == spec_entries_size(es)
                    &&& rep.compressed == data@.len()
                } by {
                    assert(stream@ == tar_stream_of(es));
                    assert(archive_views(files@) == es);
                }
            },
            Err(_) => {
                assert forall|es: Seq<(Seq<char>, Seq<u8>)>|
                    wf_entries(es) && data@ == gzip_of(tar_stream_of(es)) implies spec_entries_size(
                    es,
                ) >= 0x1_0000_0000_0000_0000 by {
                    assert(stream@ == tar_stream_of(es));
                    assert(archive_views(files@) == es);
                }
            },
        }
    }
    result
}

// ---------------------------------------------------------------------------
// The pack/report round trip
// ---------------------------------------------------------------------------
/// Packing a manifest and reading the archive back finds the manifest
/// itself: the reported configuration is exactly the one that was packed,
/// so every middleware collection comes back entry for entry.
pub proof fn lemma_pack_then_report(
    v: ConfigView,
    fns: Seq<(Seq<char>, Seq<u8>)>,
    assets: Seq<(Seq<char>, Seq<u8>)>,
)
    requires
        crate::codec::config_view_wf(v),
    ensures
        spec_report_config(spec_pack_entries(spec_write_config(v), fns, assets))
            == ReportConfigView::Found(v),
{
    let text = spec_write_config(v);
    let es = spec_pack_entries(text, fns, assets);
    assert(es.first() == ("config.json"@, vstd::utf8::encode_utf8(text)));
    assert(spec_is_config_name(es.first().0));
    assert(spec_find_config(es) == Some(vstd::utf8::encode_utf8(text)));
    vstd::utf8::encode_utf8_valid_utf8(text);
    vstd::utf8::encode_utf8_decode_utf8(text);
    crate::codec::lemma_config_roundtrip(v, Seq::empty());
    assert(text + Seq::<char>::empty() =~= text);
    assert(crate::codec::spec_parse_config(text) == Some((v, Seq::<char>::empty())));
    assert(spec_full_config(text) == Some(v));
}

} // verus!
