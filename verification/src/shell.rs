//! The served web client: its files, the tag of their contents and how they are stamped with it.

use crate::text;
use vstd::prelude::*;

verus! {

/// A file of the served web client.
#[derive(Clone, Copy, Debug, PartialEq, Eq, Structural)]
pub enum Shell {
    /// The page.
    Index,
    /// The client's program.
    AppJs,
    /// The calibration signal processing.
    Dsp,
    /// The service worker.
    ServiceWorker,
    /// The web app manifest.
    Manifest,
}

/// What in a file is replaced by the build tag.
pub const BUILD_PLACEHOLDER: &'static str = "__NFS_BUILD__";

/// How browsers may cache the web client.
pub const NO_CACHE: &'static str = "no-cache";

/// How browsers may cache the icons.
pub const ICON_CACHE: &'static str = "public, max-age=86400";

/// FNV-1a offset basis.
pub const FNV_OFFSET: u64 = 0xcbf2_9ce4_8422_2325;

/// FNV-1a prime.
pub const FNV_PRIME: u64 = 0x0000_0100_0000_01b3;

/// The name of a file.
pub open spec fn shell_file_name(which: Shell) -> Seq<char> {
    match which {
        Shell::Index => "index.html"@,
        Shell::AppJs => "app.js"@,
        Shell::Dsp => "nfs-dsp.js"@,
        Shell::ServiceWorker => "sw.js"@,
        Shell::Manifest => "manifest.webmanifest"@,
    }
}

/// The media type of a file.
pub open spec fn shell_content_type(which: Shell) -> Seq<char> {
    match which {
        Shell::Index => "text/html; charset=utf-8"@,
        Shell::AppJs => "text/javascript; charset=utf-8"@,
        Shell::Dsp => "text/javascript; charset=utf-8"@,
        Shell::ServiceWorker => "text/javascript; charset=utf-8"@,
        Shell::Manifest => "application/manifest+json; charset=utf-8"@,
    }
}

/// The sources of all files.
pub struct ShellSources {
    /// The page.
    pub index: String,
    /// The client's program.
    pub app_js: String,
    /// The calibration signal processing.
    pub dsp: String,
    /// The service worker.
    pub service_worker: String,
    /// The web app manifest.
    pub manifest: String,
}

/// The source of one file.
pub open spec fn source_text(s: ShellSources, which: Shell) -> Seq<char> {
    match which {
        Shell::Index => s.index@,
        Shell::AppJs => s.app_js@,
        Shell::Dsp => s.dsp@,
        Shell::ServiceWorker => s.service_worker@,
        Shell::Manifest => s.manifest@,
    }
}

/// The bytes of all files one after the other.
pub open spec fn all_bytes(s: ShellSources) -> Seq<u8> {
    vstd::utf8::encode_utf8(s.index@) + vstd::utf8::encode_utf8(s.app_js@)
        + vstd::utf8::encode_utf8(s.dsp@) + vstd::utf8::encode_utf8(s.service_worker@)
        + vstd::utf8::encode_utf8(s.manifest@)
}

/// The FNV-1a hash of bytes.
pub open spec fn fnv1a(b: Seq<u8>) -> u64
    decreases b.len(),
{
    if b.len() == 0 {
        FNV_OFFSET
    } else {
        (fnv1a(b.drop_last()) ^ (b.last() as u64)).wrapping_mul(FNV_PRIME)
    }
}

/// The build tag: the hash of all files as 16 hexadecimal digits.
pub open spec fn tag_text(s: ShellSources) -> Seq<char> {
    text::hex(fnv1a(all_bytes(s)) as nat, 16)
}

/// A file with the build tag put in.
pub open spec fn stamped(s: ShellSources, which: Shell) -> Seq<char> {
    text::replaced(source_text(s, which), BUILD_PLACEHOLDER@, tag_text(s))
}

impl Shell {
    /// The name of the file.
    pub fn file_name(self) -> (r: &'static str)
        ensures
            r@ == shell_file_name(self),
    {
        match self {
            Shell::Index => "index.html",
            Shell::AppJs => "app.js",
            Shell::Dsp => "nfs-dsp.js",
            Shell::ServiceWorker => "sw.js",
            Shell::Manifest => "manifest.webmanifest",
        }
    }

    /// The media type of the file.
    pub fn content_type(self) -> (r: &'static str)
        ensures
            r@ == shell_content_type(self),
    {
        match self {
            Shell::Index => "text/html; charset=utf-8",
            Shell::AppJs => "text/javascript; charset=utf-8",
            Shell::Dsp => "text/javascript; charset=utf-8",
            Shell::ServiceWorker => "text/javascript; charset=utf-8",
            Shell::Manifest => "application/manifest+json; charset=utf-8",
        }
    }

    /// The source of the file.
    pub fn embedded(self, s: &ShellSources) -> (r: &str)
        ensures
            r@ == source_text(*s, self),
    {
        match self {
            Shell::Index => s.index.as_str(),
            Shell::AppJs => s.app_js.as_str(),
            Shell::Dsp => s.dsp.as_str(),
            Shell::ServiceWorker => s.service_worker.as_str(),
            Shell::Manifest => s.manifest.as_str(),
        }
    }
}

fn hash_more(seen: Ghost<Seq<u8>>, h: u64, b: &[u8]) -> (r: u64)
    requires
        h == fnv1a(seen@),
    ensures
        r == fnv1a(seen@ + b@),
{
    let mut h: u64 = h;
    let mut i: usize = 0;
    assert(seen@ + b@.take(0) =~= seen@);
    while i < b.len()
        invariant
            i <= b@.len(),
            h == fnv1a(seen@ + b@.take(i as int)),
        decreases b@.len() - i,
    {
        assert((seen@ + b@.take(i + 1)).drop_last() =~= seen@ + b@.take(i as int));
        assert((seen@ + b@.take(i + 1)).last() == b@[i as int]);
        h = (h ^ (b[i] as u64)).wrapping_mul(FNV_PRIME);
        i += 1;
    }
    assert(b@.take(i as int) =~= b@);
    h
}

/// The build tag of the files: it rotates when any of them changes.
pub fn build_tag(s: &ShellSources) -> (r: String)
    ensures
        r@ == tag_text(*s),
{
    let ghost b0 = Seq::<u8>::empty();
    let ghost b1 = vstd::utf8::encode_utf8(s.index@);
    let ghost b2 = b1 + vstd::utf8::encode_utf8(s.app_js@);
    let ghost b3 = b2 + vstd::utf8::encode_utf8(s.dsp@);
    let ghost b4 = b3 + vstd::utf8::encode_utf8(s.service_worker@);
    assert(b0 + b1 =~= b1);
    let h: u64 = hash_more(Ghost(b0), FNV_OFFSET, s.index.as_str().as_bytes());
    let h: u64 = hash_more(Ghost(b1), h, s.app_js.as_str().as_bytes());
    let h: u64 = hash_more(Ghost(b2), h, s.dsp.as_str().as_bytes());
    let h: u64 = hash_more(Ghost(b3), h, s.service_worker.as_str().as_bytes());
    let h: u64 = hash_more(Ghost(b4), h, s.manifest.as_str().as_bytes());
    let mut r = String::new();
    text::append_hex(&mut r, h, 16);
    assert(r@ =~= tag_text(*s));
    r
}

/// A file with the build tag put in.
pub fn shell_body(s: &ShellSources, which: Shell) -> (r: String)
    ensures
        r@ == stamped(*s, which),
{
    let tag = build_tag(s);
    proof {
        reveal_strlit("__NFS_BUILD__");
    }
    text::replace_all(which.embedded(s), BUILD_PLACEHOLDER, tag.as_str())
}

/// The page with the build tag put in.
pub fn index_body(s: &ShellSources) -> (r: String)
    ensures
        r@ == stamped(*s, Shell::Index),
{
    shell_body(s, Shell::Index)
}

/// The client's program with the build tag put in.
pub fn app_js_body(s: &ShellSources) -> (r: String)
    ensures
        r@ == stamped(*s, Shell::AppJs),
{
    shell_body(s, Shell::AppJs)
}

/// The calibration signal processing with the build tag put in.
pub fn nfs_dsp_body(s: &ShellSources) -> (r: String)
    ensures
        r@ == stamped(*s, Shell::Dsp),
{
    shell_body(s, Shell::Dsp)
}

/// The service worker with the build tag put in.
pub fn service_worker_body(s: &ShellSources) -> (r: String)
    ensures
        r@ == stamped(*s, Shell::ServiceWorker),
{
    shell_body(s, Shell::ServiceWorker)
}

/// The web app manifest with the build tag put in.
pub fn manifest_body(s: &ShellSources) -> (r: String)
    ensures
        r@ == stamped(*s, Shell::Manifest),
{
    shell_body(s, Shell::Manifest)
}

proof fn lemma_hex_len(n: nat, digits: nat)
    ensures
        text::hex(n, digits).len() == digits,
    decreases digits,
{
    if digits > 0 {
        lemma_hex_len(n / 16, (digits - 1) as nat);
    }
}

/// The build tag is always 16 characters long.
pub proof fn law_tag_length(s: ShellSources)
    ensures
        tag_text(s).len() == 16,
{
    lemma_hex_len(fnv1a(all_bytes(s)) as nat, 16);
}

proof fn lemma_nothing_to_replace(s: Seq<char>, from: Seq<char>, to: Seq<char>)
    requires
        !text::occurs(s, from),
    ensures
        text::replaced(s, from, to) == s,
    decreases s.len(),
{
    if s.len() > 0 && from.len() > 0 {
        assert(!text::occurs_at(s, from, 0));
        assert forall|at: int| !text::occurs_at(s.skip(1), from, at) by {
            if text::occurs_at(s.skip(1), from, at) {
                assert(s.skip(1).subrange(at, at + from.len()) =~= s.subrange(
                    at + 1,
                    at + 1 + from.len(),
                ));
                assert(text::occurs_at(s, from, at + 1));
            }
        }
        lemma_nothing_to_replace(s.skip(1), from, to);
        assert(seq![s[0]] + s.skip(1) =~= s);
    }
}

/// A file that does not hold the placeholder is served as it is.
pub proof fn law_unstamped_file_is_served_as_is(s: ShellSources, which: Shell)
    requires
        !text::occurs(source_text(s, which), BUILD_PLACEHOLDER@),
    ensures
        stamped(s, which) == source_text(s, which),
{
    lemma_nothing_to_replace(source_text(s, which), BUILD_PLACEHOLDER@, tag_text(s));
}

/// Every file counts for the build tag, whole and in its place: the page first, then the program, the
/// signal processing, the service worker and the manifest.
pub proof fn law_tag_covers_every_file(s: ShellSources)
    ensures
        ({
            let all = all_bytes(s);
            let a = vstd::utf8::encode_utf8(s.index@);
            let b = vstd::utf8::encode_utf8(s.app_js@);
            let c = vstd::utf8::encode_utf8(s.dsp@);
            let d = vstd::utf8::encode_utf8(s.service_worker@);
            let e = vstd::utf8::encode_utf8(s.manifest@);
            let n = a.len() as int;
            &&& all.len() == n + b.len() + c.len() + d.len() + e.len()
            &&& all.subrange(0, n) == a
            &&& all.subrange(n, n + b.len()) == b
            &&& all.subrange(n + b.len(), n + b.len() + c.len()) == c
            &&& all.subrange(n + b.len() + c.len(), n + b.len() + c.len() + d.len()) == d
            &&& all.subrange(n + b.len() + c.len() + d.len(), all.len() as int) == e
        }),
{
    let all = all_bytes(s);
    let a = vstd::utf8::encode_utf8(s.index@);
    let b = vstd::utf8::encode_utf8(s.app_js@);
    let c = vstd::utf8::encode_utf8(s.dsp@);
    let d = vstd::utf8::encode_utf8(s.service_worker@);
    let e = vstd::utf8::encode_utf8(s.manifest@);
    let n = a.len() as int;
    assert(all.subrange(0, n) =~= a);
    assert(all.subrange(n, n + b.len()) =~= b);
    assert(all.subrange(n + b.len(), n + b.len() + c.len()) =~= c);
    assert(all.subrange(n + b.len() + c.len(), n + b.len() + c.len() + d.len()) =~= d);
    assert(all.subrange(n + b.len() + c.len() + d.len(), all.len() as int) =~= e);
}

/// The hash is FNV-1a of 64 bits: it starts from the offset basis, and each further byte is mixed in
/// first and multiplied by the prime afterwards.
pub proof fn law_hash_is_fnv1a(b: Seq<u8>, next: u8)
    ensures
        fnv1a(Seq::empty()) == 0xcbf2_9ce4_8422_2325,
        fnv1a(b.push(next)) == (fnv1a(b) ^ (next as u64)).wrapping_mul(0x100_0000_01b3),
{
    assert(b.push(next).drop_last() =~= b);
}

/// The tag is put into a file where the placeholder stands, and what is around it stays.
pub proof fn law_placeholder_becomes_the_tag(
    s: ShellSources,
    which: Shell,
    front: Seq<char>,
    behind: Seq<char>,
)
    requires
        source_text(s, which) == front + "__NFS_BUILD__"@ + behind,
        forall|at: int|
            0 <= at < front.len() ==> !#[trigger] text::occurs_at(
                front + "__NFS_BUILD__"@ + behind,
                "__NFS_BUILD__"@,
                at,
            ),
        !text::occurs(behind, "__NFS_BUILD__"@),
    ensures
        stamped(s, which) == front + tag_text(s) + behind,
{
    reveal_strlit("__NFS_BUILD__");
    text::law_first_place_is_replaced(front, "__NFS_BUILD__"@, behind, tag_text(s));
    text::law_replacing(behind, "__NFS_BUILD__"@, tag_text(s));
}

/// Each file is served from its own source.
pub proof fn law_files_have_their_sources(s: ShellSources)
    ensures
        source_text(s, Shell::Index) == s.index@,
        source_text(s, Shell::AppJs) == s.app_js@,
        source_text(s, Shell::Dsp) == s.dsp@,
        source_text(s, Shell::ServiceWorker) == s.service_worker@,
        source_text(s, Shell::Manifest) == s.manifest@,
{
}

/// Scripts are served as scripts, the page as a page and the manifest as a manifest, and no two files
/// have the same name.
pub proof fn law_media_types(a: Shell, b: Shell)
    ensures
        shell_content_type(Shell::Index) == "text/html; charset=utf-8"@,
        shell_content_type(Shell::Manifest) == "application/manifest+json; charset=utf-8"@,
        a == Shell::AppJs || a == Shell::Dsp || a == Shell::ServiceWorker <==> shell_content_type(a)
            == "text/javascript; charset=utf-8"@,
        a != b ==> shell_file_name(a) != shell_file_name(b),
{
    reveal_strlit("text/html; charset=utf-8");
    reveal_strlit("text/javascript; charset=utf-8");
    reveal_strlit("application/manifest+json; charset=utf-8");
    assert("text/html; charset=utf-8"@.len() != "text/javascript; charset=utf-8"@.len());
    assert("application/manifest+json; charset=utf-8"@.len() != "text/javascript; charset=utf-8"@.len());
    reveal_strlit("index.html");
    reveal_strlit("app.js");
    reveal_strlit("nfs-dsp.js");
    reveal_strlit("sw.js");
    reveal_strlit("manifest.webmanifest");
    assert("index.html"@[0] == 'i' && "app.js"@[0] == 'a' && "nfs-dsp.js"@[0] == 'n');
    assert("sw.js"@[0] == 's' && "manifest.webmanifest"@[0] == 'm');
    assert(forall|w: Shell|
        #![trigger shell_file_name(w)]
        shell_file_name(w)[0] == (match w {
            Shell::Index => 'i',
            Shell::AppJs => 'a',
            Shell::Dsp => 'n',
            Shell::ServiceWorker => 's',
            Shell::Manifest => 'm',
        }));
}

} // verus!
