//! Disk usage by file type (images, videos, archives, ...) with the largest
//! files of each type, for the home-screen distribution bar.
use vstd::prelude::*;
use crate::keyed::{find_key, key_get, key_index, keyed, lemma_key_index, lemma_key_index_is};
use crate::paths::{file_name, file_name_of, split_ext, stem_and_extension};
use crate::ranking::{rank_desc, stable_desc, top_by};
use crate::text::{chars_of, lowercase, lowercase_of, str_eq, string_of};

verus! {

/// One file of a type bucket.
#[derive(Clone, Debug, PartialEq, Eq)]
pub struct FileEntry {
    pub path: String,
    pub size_bytes: u64,
}

/// The files of one type: their total size and number, and the largest.
#[derive(Clone, Debug, PartialEq, Eq)]
pub struct TypeBucket {
    /// Stable key: images | videos | audio | archives | disk_images |
    /// applications | executables | documents | other.
    pub category: String,
    pub bytes: u64,
    pub count: u64,
    pub top: Vec<FileEntry>,
}

/// How many of the largest files each bucket lists.
pub const TOP_N: usize = 40;

pub open spec fn image_exts() -> Seq<Seq<char>> {
    seq![
        "jpg"@, "jpeg"@, "png"@, "gif"@, "webp"@, "svg"@, "bmp"@, "tiff"@, "tif"@, "heic"@, "heif"@,
        "avif"@, "ico"@, "raw"@, "cr2"@, "nef"@, "arw"@, "dng"@, "psd"@,
    ]
}

pub open spec fn video_exts() -> Seq<Seq<char>> {
    seq![
        "mp4"@, "mkv"@, "avi"@, "mov"@, "webm"@, "flv"@, "wmv"@, "m4v"@, "mpg"@, "mpeg"@, "3gp"@,
        "ts"@, "m2ts"@,
    ]
}

pub open spec fn audio_exts() -> Seq<Seq<char>> {
    seq!["mp3"@, "flac"@, "wav"@, "ogg"@, "aac"@, "m4a"@, "opus"@, "wma"@, "aiff"@]
}

pub open spec fn archive_exts() -> Seq<Seq<char>> {
    seq![
        "zip"@, "tar"@, "gz"@, "tgz"@, "bz2"@, "xz"@, "7z"@, "rar"@, "zst"@, "lz4"@, "lzma"@, "cab"@,
    ]
}

pub open spec fn disk_image_exts() -> Seq<Seq<char>> {
    seq!["iso"@, "img"@, "dmg"@, "vdi"@, "qcow2"@, "vmdk"@, "vhd"@, "vhdx"@, "ova"@]
}

pub open spec fn application_exts() -> Seq<Seq<char>> {
    seq![
        "appimage"@, "deb"@, "rpm"@, "msi"@, "apk"@, "exe"@, "flatpak"@, "flatpakref"@, "snap"@,
        "pkg"@, "run"@,
    ]
}

pub open spec fn executable_exts() -> Seq<Seq<char>> {
    seq!["bin"@, "dll"@, "so"@, "dylib"@, "a"@, "o"@, "ko"@]
}

pub open spec fn document_exts() -> Seq<Seq<char>> {
    seq![
        "pdf"@, "doc"@, "docx"@, "xls"@, "xlsx"@, "ppt"@, "pptx"@, "odt"@, "ods"@, "odp"@, "txt"@,
        "rtf"@, "epub"@, "mobi"@, "csv"@,
    ]
}

/// The category of a (lowercased) extension.
pub open spec fn category_of(ext: Seq<char>) -> Seq<char> {
    if image_exts().contains(ext) {
        "images"@
    } else if video_exts().contains(ext) {
        "videos"@
    } else if audio_exts().contains(ext) {
        "audio"@
    } else if archive_exts().contains(ext) {
        "archives"@
    } else if disk_image_exts().contains(ext) {
        "disk_images"@
    } else if application_exts().contains(ext) {
        "applications"@
    } else if executable_exts().contains(ext) {
        "executables"@
    } else if document_exts().contains(ext) {
        "documents"@
    } else {
        "other"@
    }
}

/// An index below the length of the longest extension list is one of its
/// positions.
proof fn lemma_small_index(i: int)
    requires
        0 <= i < 19,
    ensures
        i == 0 || i == 1 || i == 2 || i == 3 || i == 4 || i == 5 || i == 6 || i == 7 || i == 8 || i
            == 9 || i == 10 || i == 11 || i == 12 || i == 13 || i == 14 || i == 15 || i == 16 || i == 17
            || i == 18,
{
}

/// The extension table: every extension of each list is classified under
/// that list's category (`jpg` and the other image formats as `images`, ...,
/// `pdf` and the other document formats as `documents`), and any other
/// extension as `other`.
pub proof fn law_extension_table(ext: Seq<char>)
    ensures
        (ext == "jpg"@ || ext == "jpeg"@ || ext == "png"@ || ext == "gif"@ || ext == "webp"@ ||
            ext == "svg"@ || ext == "bmp"@ || ext == "tiff"@ || ext == "tif"@ || ext == "heic"@ ||
            ext == "heif"@ || ext == "avif"@ || ext == "ico"@ || ext == "raw"@ || ext == "cr2"@ ||
            ext == "nef"@ || ext == "arw"@ || ext == "dng"@ || ext == "psd"@) ==> category_of(ext) == "images"@,
        (ext == "mp4"@ || ext == "mkv"@ || ext == "avi"@ || ext == "mov"@ || ext == "webm"@ ||
            ext == "flv"@ || ext == "wmv"@ || ext == "m4v"@ || ext == "mpg"@ || ext == "mpeg"@ ||
            ext == "3gp"@ || ext == "ts"@ || ext == "m2ts"@) ==> category_of(ext) == "videos"@,
        (ext == "mp3"@ || ext == "flac"@ || ext == "wav"@ || ext == "ogg"@ || ext == "aac"@ ||
            ext == "m4a"@ || ext == "opus"@ || ext == "wma"@ || ext == "aiff"@) ==> category_of(ext) == "audio"@,
        (ext == "zip"@ || ext == "tar"@ || ext == "gz"@ || ext == "tgz"@ || ext == "bz2"@ ||
            ext == "xz"@ || ext == "7z"@ || ext == "rar"@ || ext == "zst"@ || ext == "lz4"@ ||
            ext == "lzma"@ || ext == "cab"@) ==> category_of(ext) == "archives"@,
        (ext == "iso"@ || ext == "img"@ || ext == "dmg"@ || ext == "vdi"@ || ext == "qcow2"@ ||
            ext == "vmdk"@ || ext == "vhd"@ || ext == "vhdx"@ || ext == "ova"@) ==> category_of(ext) == "disk_images"@,
        (ext == "appimage"@ || ext == "deb"@ || ext == "rpm"@ || ext == "msi"@ || ext == "apk"@ ||
            ext == "exe"@ || ext == "flatpak"@ || ext == "flatpakref"@ || ext == "snap"@ ||
            ext == "pkg"@ || ext == "run"@) ==> category_of(ext) == "applications"@,
        (ext == "bin"@ || ext == "dll"@ || ext == "so"@ || ext == "dylib"@ || ext == "a"@ ||
            ext == "o"@ || ext == "ko"@) ==> category_of(ext) == "executables"@,
        (ext == "pdf"@ || ext == "doc"@ || ext == "docx"@ || ext == "xls"@ || ext == "xlsx"@ ||
            ext == "ppt"@ || ext == "pptx"@ || ext == "odt"@ || ext == "ods"@ || ext == "odp"@ ||
            ext == "txt"@ || ext == "rtf"@ || ext == "epub"@ || ext == "mobi"@ || ext == "csv"@) ==> category_of(ext) == "documents"@,
        (ext != "jpg"@ && ext != "jpeg"@ && ext != "png"@ && ext != "gif"@ && ext != "webp"@ &&
            ext != "svg"@ && ext != "bmp"@ && ext != "tiff"@ && ext != "tif"@ && ext != "heic"@ &&
            ext != "heif"@ && ext != "avif"@ && ext != "ico"@ && ext != "raw"@ && ext != "cr2"@ &&
            ext != "nef"@ && ext != "arw"@ && ext != "dng"@ && ext != "psd"@ && ext != "mp4"@ &&
            ext != "mkv"@ && ext != "avi"@ && ext != "mov"@ && ext != "webm"@ && ext != "flv"@ &&
            ext != "wmv"@ && ext != "m4v"@ && ext != "mpg"@ && ext != "mpeg"@ && ext != "3gp"@ &&
            ext != "ts"@ && ext != "m2ts"@ && ext != "mp3"@ && ext != "flac"@ && ext != "wav"@ &&
            ext != "ogg"@ && ext != "aac"@ && ext != "m4a"@ && ext != "opus"@ && ext != "wma"@ &&
            ext != "aiff"@ && ext != "zip"@ && ext != "tar"@ && ext != "gz"@ && ext != "tgz"@ &&
            ext != "bz2"@ && ext != "xz"@ && ext != "7z"@ && ext != "rar"@ && ext != "zst"@ &&
            ext != "lz4"@ && ext != "lzma"@ && ext != "cab"@ && ext != "iso"@ && ext != "img"@ &&
            ext != "dmg"@ && ext != "vdi"@ && ext != "qcow2"@ && ext != "vmdk"@ && ext != "vhd"@ &&
            ext != "vhdx"@ && ext != "ova"@ && ext != "appimage"@ && ext != "deb"@ && ext != "rpm"@ &&
            ext != "msi"@ && ext != "apk"@ && ext != "exe"@ && ext != "flatpak"@ &&
            ext != "flatpakref"@ && ext != "snap"@ && ext != "pkg"@ && ext != "run"@ &&
            ext != "bin"@ && ext != "dll"@ && ext != "so"@ && ext != "dylib"@ && ext != "a"@ &&
            ext != "o"@ && ext != "ko"@ && ext != "pdf"@ && ext != "doc"@ && ext != "docx"@ &&
            ext != "xls"@ && ext != "xlsx"@ && ext != "ppt"@ && ext != "pptx"@ && ext != "odt"@ &&
            ext != "ods"@ && ext != "odp"@ && ext != "txt"@ && ext != "rtf"@ && ext != "epub"@ &&
            ext != "mobi"@ && ext != "csv"@) ==> category_of(ext) == "other"@,
{
    reveal_strlit("jpg");
    reveal_strlit("jpeg");
    reveal_strlit("png");
    reveal_strlit("gif");
    reveal_strlit("webp");
    reveal_strlit("svg");
    reveal_strlit("bmp");
    reveal_strlit("tiff");
    reveal_strlit("tif");
    reveal_strlit("heic");
    reveal_strlit("heif");
    reveal_strlit("avif");
    reveal_strlit("ico");
    reveal_strlit("raw");
    reveal_strlit("cr2");
    reveal_strlit("nef");
    reveal_strlit("arw");
    reveal_strlit("dng");
    reveal_strlit("psd");
    reveal_strlit("mp4");
    reveal_strlit("mkv");
    reveal_strlit("avi");
    reveal_strlit("mov");
    reveal_strlit("webm");
    reveal_strlit("flv");
    reveal_strlit("wmv");
    reveal_strlit("m4v");
    reveal_strlit("mpg");
    reveal_strlit("mpeg");
    reveal_strlit("3gp");
    reveal_strlit("ts");
    reveal_strlit("m2ts");
    reveal_strlit("mp3");
    reveal_strlit("flac");
    reveal_strlit("wav");
    reveal_strlit("ogg");
    reveal_strlit("aac");
    reveal_strlit("m4a");
    reveal_strlit("opus");
    reveal_strlit("wma");
    reveal_strlit("aiff");
    reveal_strlit("zip");
    reveal_strlit("tar");
    reveal_strlit("gz");
    reveal_strlit("tgz");
    reveal_strlit("bz2");
    reveal_strlit("xz");
    reveal_strlit("7z");
    reveal_strlit("rar");
    reveal_strlit("zst");
    reveal_strlit("lz4");
    reveal_strlit("lzma");
    reveal_strlit("cab");
    reveal_strlit("iso");
    reveal_strlit("img");
    reveal_strlit("dmg");
    reveal_strlit("vdi");
    reveal_strlit("qcow2");
    reveal_strlit("vmdk");
    reveal_strlit("vhd");
    reveal_strlit("vhdx");
    reveal_strlit("ova");
    reveal_strlit("appimage");
    reveal_strlit("deb");
    reveal_strlit("rpm");
    reveal_strlit("msi");
    reveal_strlit("apk");
    reveal_strlit("exe");
    reveal_strlit("flatpak");
    reveal_strlit("flatpakref");
    reveal_strlit("snap");
    reveal_strlit("pkg");
    reveal_strlit("run");
    reveal_strlit("bin");
    reveal_strlit("dll");
    reveal_strlit("so");
    reveal_strlit("dylib");
    reveal_strlit("a");
    reveal_strlit("o");
    reveal_strlit("ko");
    reveal_strlit("pdf");
    reveal_strlit("doc");
    reveal_strlit("docx");
    reveal_strlit("xls");
    reveal_strlit("xlsx");
    reveal_strlit("ppt");
    reveal_strlit("pptx");
    reveal_strlit("odt");
    reveal_strlit("ods");
    reveal_strlit("odp");
    reveal_strlit("txt");
    reveal_strlit("rtf");
    reveal_strlit("epub");
    reveal_strlit("mobi");
    reveal_strlit("csv");
    reveal_strlit("images");
    reveal_strlit("videos");
    reveal_strlit("audio");
    reveal_strlit("archives");
    reveal_strlit("disk_images");
    reveal_strlit("applications");
    reveal_strlit("executables");
    reveal_strlit("documents");
    assert(ext == "jpg"@ ==> ext.len() == 3 && ext[0] == 'j' && ext[1] == 'p' && ext[2] == 'g');
    assert(ext == "jpeg"@ ==> ext.len() == 4 && ext[0] == 'j' && ext[1] == 'p' && ext[2] == 'e' && ext[3] == 'g');
    assert(ext == "png"@ ==> ext.len() == 3 && ext[0] == 'p' && ext[1] == 'n' && ext[2] == 'g');
    assert(ext == "gif"@ ==> ext.len() == 3 && ext[0] == 'g' && ext[1] == 'i' && ext[2] == 'f');
    assert(ext == "webp"@ ==> ext.len() == 4 && ext[0] == 'w' && ext[1] == 'e' && ext[2] == 'b' && ext[3] == 'p');
    assert(ext == "svg"@ ==> ext.len() == 3 && ext[0] == 's' && ext[1] == 'v' && ext[2] == 'g');
    assert(ext == "bmp"@ ==> ext.len() == 3 && ext[0] == 'b' && ext[1] == 'm' && ext[2] == 'p');
    assert(ext == "tiff"@ ==> ext.len() == 4 && ext[0] == 't' && ext[1] == 'i' && ext[2] == 'f' && ext[3] == 'f');
    assert(ext == "tif"@ ==> ext.len() == 3 && ext[0] == 't' && ext[1] == 'i' && ext[2] == 'f');
    assert(ext == "heic"@ ==> ext.len() == 4 && ext[0] == 'h' && ext[1] == 'e' && ext[2] == 'i' && ext[3] == 'c');
    assert(ext == "heif"@ ==> ext.len() == 4 && ext[0] == 'h' && ext[1] == 'e' && ext[2] == 'i' && ext[3] == 'f');
    assert(ext == "avif"@ ==> ext.len() == 4 && ext[0] == 'a' && ext[1] == 'v' && ext[2] == 'i' && ext[3] == 'f');
    assert(ext == "ico"@ ==> ext.len() == 3 && ext[0] == 'i' && ext[1] == 'c' && ext[2] == 'o');
    assert(ext == "raw"@ ==> ext.len() == 3 && ext[0] == 'r' && ext[1] == 'a' && ext[2] == 'w');
    assert(ext == "cr2"@ ==> ext.len() == 3 && ext[0] == 'c' && ext[1] == 'r' && ext[2] == '2');
    assert(ext == "nef"@ ==> ext.len() == 3 && ext[0] == 'n' && ext[1] == 'e' && ext[2] == 'f');
    assert(ext == "arw"@ ==> ext.len() == 3 && ext[0] == 'a' && ext[1] == 'r' && ext[2] == 'w');
    assert(ext == "dng"@ ==> ext.len() == 3 && ext[0] == 'd' && ext[1] == 'n' && ext[2] == 'g');
    assert(ext == "psd"@ ==> ext.len() == 3 && ext[0] == 'p' && ext[1] == 's' && ext[2] == 'd');
    assert(ext == "mp4"@ ==> ext.len() == 3 && ext[0] == 'm' && ext[1] == 'p' && ext[2] == '4');
    assert(ext == "mkv"@ ==> ext.len() == 3 && ext[0] == 'm' && ext[1] == 'k' && ext[2] == 'v');
    assert(ext == "avi"@ ==> ext.len() == 3 && ext[0] == 'a' && ext[1] == 'v' && ext[2] == 'i');
    assert(ext == "mov"@ ==> ext.len() == 3 && ext[0] == 'm' && ext[1] == 'o' && ext[2] == 'v');
    assert(ext == "webm"@ ==> ext.len() == 4 && ext[0] == 'w' && ext[1] == 'e' && ext[2] == 'b' && ext[3] == 'm');
    assert(ext == "flv"@ ==> ext.len() == 3 && ext[0] == 'f' && ext[1] == 'l' && ext[2] == 'v');
    assert(ext == "wmv"@ ==> ext.len() == 3 && ext[0] == 'w' && ext[1] == 'm' && ext[2] == 'v');
    assert(ext == "m4v"@ ==> ext.len() == 3 && ext[0] == 'm' && ext[1] == '4' && ext[2] == 'v');
    assert(ext == "mpg"@ ==> ext.len() == 3 && ext[0] == 'm' && ext[1] == 'p' && ext[2] == 'g');
    assert(ext == "mpeg"@ ==> ext.len() == 4 && ext[0] == 'm' && ext[1] == 'p' && ext[2] == 'e' && ext[3] == 'g');
    assert(ext == "3gp"@ ==> ext.len() == 3 && ext[0] == '3' && ext[1] == 'g' && ext[2] == 'p');
    assert(ext == "ts"@ ==> ext.len() == 2 && ext[0] == 't' && ext[1] == 's');
    assert(ext == "m2ts"@ ==> ext.len() == 4 && ext[0] == 'm' && ext[1] == '2' && ext[2] == 't' && ext[3] == 's');
    assert(ext == "mp3"@ ==> ext.len() == 3 && ext[0] == 'm' && ext[1] == 'p' && ext[2] == '3');
    assert(ext == "flac"@ ==> ext.len() == 4 && ext[0] == 'f' && ext[1] == 'l' && ext[2] == 'a' && ext[3] == 'c');
    assert(ext == "wav"@ ==> ext.len() == 3 && ext[0] == 'w' && ext[1] == 'a' && ext[2] == 'v');
    assert(ext == "ogg"@ ==> ext.len() == 3 && ext[0] == 'o' && ext[1] == 'g' && ext[2] == 'g');
    assert(ext == "aac"@ ==> ext.len() == 3 && ext[0] == 'a' && ext[1] == 'a' && ext[2] == 'c');
    assert(ext == "m4a"@ ==> ext.len() == 3 && ext[0] == 'm' && ext[1] == '4' && ext[2] == 'a');
    assert(ext == "opus"@ ==> ext.len() == 4 && ext[0] == 'o' && ext[1] == 'p' && ext[2] == 'u' && ext[3] == 's');
    assert(ext == "wma"@ ==> ext.len() == 3 && ext[0] == 'w' && ext[1] == 'm' && ext[2] == 'a');
    assert(ext == "aiff"@ ==> ext.len() == 4 && ext[0] == 'a' && ext[1] == 'i' && ext[2] == 'f' && ext[3] == 'f');
    assert(ext == "zip"@ ==> ext.len() == 3 && ext[0] == 'z' && ext[1] == 'i' && ext[2] == 'p');
    assert(ext == "tar"@ ==> ext.len() == 3 && ext[0] == 't' && ext[1] == 'a' && ext[2] == 'r');
    assert(ext == "gz"@ ==> ext.len() == 2 && ext[0] == 'g' && ext[1] == 'z');
    assert(ext == "tgz"@ ==> ext.len() == 3 && ext[0] == 't' && ext[1] == 'g' && ext[2] == 'z');
    assert(ext == "bz2"@ ==> ext.len() == 3 && ext[0] == 'b' && ext[1] == 'z' && ext[2] == '2');
    assert(ext == "xz"@ ==> ext.len() == 2 && ext[0] == 'x' && ext[1] == 'z');
    assert(ext == "7z"@ ==> ext.len() == 2 && ext[0] == '7' && ext[1] == 'z');
    assert(ext == "rar"@ ==> ext.len() == 3 && ext[0] == 'r' && ext[1] == 'a' && ext[2] == 'r');
    assert(ext == "zst"@ ==> ext.len() == 3 && ext[0] == 'z' && ext[1] == 's' && ext[2] == 't');
    assert(ext == "lz4"@ ==> ext.len() == 3 && ext[0] == 'l' && ext[1] == 'z' && ext[2] == '4');
    assert(ext == "lzma"@ ==> ext.len() == 4 && ext[0] == 'l' && ext[1] == 'z' && ext[2] == 'm' && ext[3] == 'a');
    assert(ext == "cab"@ ==> ext.len() == 3 && ext[0] == 'c' && ext[1] == 'a' && ext[2] == 'b');
    assert(ext == "iso"@ ==> ext.len() == 3 && ext[0] == 'i' && ext[1] == 's' && ext[2] == 'o');
    assert(ext == "img"@ ==> ext.len() == 3 && ext[0] == 'i' && ext[1] == 'm' && ext[2] == 'g');
    assert(ext == "dmg"@ ==> ext.len() == 3 && ext[0] == 'd' && ext[1] == 'm' && ext[2] == 'g');
    assert(ext == "vdi"@ ==> ext.len() == 3 && ext[0] == 'v' && ext[1] == 'd' && ext[2] == 'i');
    assert(ext == "qcow2"@ ==> ext.len() == 5 && ext[0] == 'q' && ext[1] == 'c' && ext[2] == 'o' && ext[3] == 'w' && ext[4] == '2');
    assert(ext == "vmdk"@ ==> ext.len() == 4 && ext[0] == 'v' && ext[1] == 'm' && ext[2] == 'd' && ext[3] == 'k');
    assert(ext == "vhd"@ ==> ext.len() == 3 && ext[0] == 'v' && ext[1] == 'h' && ext[2] == 'd');
    assert(ext == "vhdx"@ ==> ext.len() == 4 && ext[0] == 'v' && ext[1] == 'h' && ext[2] == 'd' && ext[3] == 'x');
    assert(ext == "ova"@ ==> ext.len() == 3 && ext[0] == 'o' && ext[1] == 'v' && ext[2] == 'a');
    assert(ext == "appimage"@ ==> ext.len() == 8 && ext[0] == 'a' && ext[1] == 'p' && ext[2] == 'p' && ext[3] == 'i' && ext[4] == 'm' && ext[5] == 'a' && ext[6] == 'g' && ext[7] == 'e');
    assert(ext == "deb"@ ==> ext.len() == 3 && ext[0] == 'd' && ext[1] == 'e' && ext[2] == 'b');
    assert(ext == "rpm"@ ==> ext.len() == 3 && ext[0] == 'r' && ext[1] == 'p' && ext[2] == 'm');
    assert(ext == "msi"@ ==> ext.len() == 3 && ext[0] == 'm' && ext[1] == 's' && ext[2] == 'i');
    assert(ext == "apk"@ ==> ext.len() == 3 && ext[0] == 'a' && ext[1] == 'p' && ext[2] == 'k');
    assert(ext == "exe"@ ==> ext.len() == 3 && ext[0] == 'e' && ext[1] == 'x' && ext[2] == 'e');
    assert(ext == "flatpak"@ ==> ext.len() == 7 && ext[0] == 'f' && ext[1] == 'l' && ext[2] == 'a' && ext[3] == 't' && ext[4] == 'p' && ext[5] == 'a' && ext[6] == 'k');
    assert(ext == "flatpakref"@ ==> ext.len() == 10 && ext[0] == 'f' && ext[1] == 'l' && ext[2] == 'a' && ext[3] == 't' && ext[4] == 'p' && ext[5] == 'a' && ext[6] == 'k' && ext[7] == 'r' && ext[8] == 'e' && ext[9] == 'f');
    assert(ext == "snap"@ ==> ext.len() == 4 && ext[0] == 's' && ext[1] == 'n' && ext[2] == 'a' && ext[3] == 'p');
    assert(ext == "pkg"@ ==> ext.len() == 3 && ext[0] == 'p' && ext[1] == 'k' && ext[2] == 'g');
    assert(ext == "run"@ ==> ext.len() == 3 && ext[0] == 'r' && ext[1] == 'u' && ext[2] == 'n');
    assert(ext == "bin"@ ==> ext.len() == 3 && ext[0] == 'b' && ext[1] == 'i' && ext[2] == 'n');
    assert(ext == "dll"@ ==> ext.len() == 3 && ext[0] == 'd' && ext[1] == 'l' && ext[2] == 'l');
    assert(ext == "so"@ ==> ext.len() == 2 && ext[0] == 's' && ext[1] == 'o');
    assert(ext == "dylib"@ ==> ext.len() == 5 && ext[0] == 'd' && ext[1] == 'y' && ext[2] == 'l' && ext[3] == 'i' && ext[4] == 'b');
    assert(ext == "a"@ ==> ext.len() == 1 && ext[0] == 'a');
    assert(ext == "o"@ ==> ext.len() == 1 && ext[0] == 'o');
    assert(ext == "ko"@ ==> ext.len() == 2 && ext[0] == 'k' && ext[1] == 'o');
    assert(ext == "pdf"@ ==> ext.len() == 3 && ext[0] == 'p' && ext[1] == 'd' && ext[2] == 'f');
    assert(ext == "doc"@ ==> ext.len() == 3 && ext[0] == 'd' && ext[1] == 'o' && ext[2] == 'c');
    assert(ext == "docx"@ ==> ext.len() == 4 && ext[0] == 'd' && ext[1] == 'o' && ext[2] == 'c' && ext[3] == 'x');
    assert(ext == "xls"@ ==> ext.len() == 3 && ext[0] == 'x' && ext[1] == 'l' && ext[2] == 's');
    assert(ext == "xlsx"@ ==> ext.len() == 4 && ext[0] == 'x' && ext[1] == 'l' && ext[2] == 's' && ext[3] == 'x');
    assert(ext == "ppt"@ ==> ext.len() == 3 && ext[0] == 'p' && ext[1] == 'p' && ext[2] == 't');
    assert(ext == "pptx"@ ==> ext.len() == 4 && ext[0] == 'p' && ext[1] == 'p' && ext[2] == 't' && ext[3] == 'x');
    assert(ext == "odt"@ ==> ext.len() == 3 && ext[0] == 'o' && ext[1] == 'd' && ext[2] == 't');
    assert(ext == "ods"@ ==> ext.len() == 3 && ext[0] == 'o' && ext[1] == 'd' && ext[2] == 's');
    assert(ext == "odp"@ ==> ext.len() == 3 && ext[0] == 'o' && ext[1] == 'd' && ext[2] == 'p');
    assert(ext == "txt"@ ==> ext.len() == 3 && ext[0] == 't' && ext[1] == 'x' && ext[2] == 't');
    assert(ext == "rtf"@ ==> ext.len() == 3 && ext[0] == 'r' && ext[1] == 't' && ext[2] == 'f');
    assert(ext == "epub"@ ==> ext.len() == 4 && ext[0] == 'e' && ext[1] == 'p' && ext[2] == 'u' && ext[3] == 'b');
    assert(ext == "mobi"@ ==> ext.len() == 4 && ext[0] == 'm' && ext[1] == 'o' && ext[2] == 'b' && ext[3] == 'i');
    assert(ext == "csv"@ ==> ext.len() == 3 && ext[0] == 'c' && ext[1] == 's' && ext[2] == 'v');
    assert forall|i: int| 0 <= i < image_exts().len() implies (ext == "mp4"@ || ext == "mkv"@ || ext == "avi"@ || ext == "mov"@ || ext == "webm"@ ||
            ext == "flv"@ || ext == "wmv"@ || ext == "m4v"@ || ext == "mpg"@ || ext == "mpeg"@ ||
            ext == "3gp"@ || ext == "ts"@ || ext == "m2ts"@ || ext == "mp3"@ || ext == "flac"@ ||
            ext == "wav"@ || ext == "ogg"@ || ext == "aac"@ || ext == "m4a"@ || ext == "opus"@ ||
            ext == "wma"@ || ext == "aiff"@ || ext == "zip"@ || ext == "tar"@ || ext == "gz"@ ||
            ext == "tgz"@ || ext == "bz2"@ || ext == "xz"@ || ext == "7z"@ || ext == "rar"@ ||
            ext == "zst"@ || ext == "lz4"@ || ext == "lzma"@ || ext == "cab"@ || ext == "iso"@ ||
            ext == "img"@ || ext == "dmg"@ || ext == "vdi"@ || ext == "qcow2"@ || ext == "vmdk"@ ||
            ext == "vhd"@ || ext == "vhdx"@ || ext == "ova"@ || ext == "appimage"@ || ext == "deb"@ ||
            ext == "rpm"@ || ext == "msi"@ || ext == "apk"@ || ext == "exe"@ || ext == "flatpak"@ ||
            ext == "flatpakref"@ || ext == "snap"@ || ext == "pkg"@ || ext == "run"@ ||
            ext == "bin"@ || ext == "dll"@ || ext == "so"@ || ext == "dylib"@ || ext == "a"@ ||
            ext == "o"@ || ext == "ko"@ || ext == "pdf"@ || ext == "doc"@ || ext == "docx"@ ||
            ext == "xls"@ || ext == "xlsx"@ || ext == "ppt"@ || ext == "pptx"@ || ext == "odt"@ ||
            ext == "ods"@ || ext == "odp"@ || ext == "txt"@ || ext == "rtf"@ || ext == "epub"@ ||
            ext == "mobi"@ || ext == "csv"@) ==> image_exts()[i] != ext by {
        lemma_small_index(i);
    }
    assert forall|i: int| 0 <= i < video_exts().len() implies (ext == "mp3"@ || ext == "flac"@ || ext == "wav"@ || ext == "ogg"@ || ext == "aac"@ ||
            ext == "m4a"@ || ext == "opus"@ || ext == "wma"@ || ext == "aiff"@ || ext == "zip"@ ||
            ext == "tar"@ || ext == "gz"@ || ext == "tgz"@ || ext == "bz2"@ || ext == "xz"@ ||
            ext == "7z"@ || ext == "rar"@ || ext == "zst"@ || ext == "lz4"@ || ext == "lzma"@ ||
            ext == "cab"@ || ext == "iso"@ || ext == "img"@ || ext == "dmg"@ || ext == "vdi"@ ||
            ext == "qcow2"@ || ext == "vmdk"@ || ext == "vhd"@ || ext == "vhdx"@ || ext == "ova"@ ||
            ext == "appimage"@ || ext == "deb"@ || ext == "rpm"@ || ext == "msi"@ || ext == "apk"@ ||
            ext == "exe"@ || ext == "flatpak"@ || ext == "flatpakref"@ || ext == "snap"@ ||
            ext == "pkg"@ || ext == "run"@ || ext == "bin"@ || ext == "dll"@ || ext == "so"@ ||
            ext == "dylib"@ || ext == "a"@ || ext == "o"@ || ext == "ko"@ || ext == "pdf"@ ||
            ext == "doc"@ || ext == "docx"@ || ext == "xls"@ || ext == "xlsx"@ || ext == "ppt"@ ||
            ext == "pptx"@ || ext == "odt"@ || ext == "ods"@ || ext == "odp"@ || ext == "txt"@ ||
            ext == "rtf"@ || ext == "epub"@ || ext == "mobi"@ || ext == "csv"@) ==> video_exts()[i] != ext by {
        lemma_small_index(i);
    }
    assert forall|i: int| 0 <= i < audio_exts().len() implies (ext == "zip"@ || ext == "tar"@ || ext == "gz"@ || ext == "tgz"@ || ext == "bz2"@ ||
            ext == "xz"@ || ext == "7z"@ || ext == "rar"@ || ext == "zst"@ || ext == "lz4"@ ||
            ext == "lzma"@ || ext == "cab"@ || ext == "iso"@ || ext == "img"@ || ext == "dmg"@ ||
            ext == "vdi"@ || ext == "qcow2"@ || ext == "vmdk"@ || ext == "vhd"@ || ext == "vhdx"@ ||
            ext == "ova"@ || ext == "appimage"@ || ext == "deb"@ || ext == "rpm"@ || ext == "msi"@ ||
            ext == "apk"@ || ext == "exe"@ || ext == "flatpak"@ || ext == "flatpakref"@ ||
            ext == "snap"@ || ext == "pkg"@ || ext == "run"@ || ext == "bin"@ || ext == "dll"@ ||
            ext == "so"@ || ext == "dylib"@ || ext == "a"@ || ext == "o"@ || ext == "ko"@ ||
            ext == "pdf"@ || ext == "doc"@ || ext == "docx"@ || ext == "xls"@ || ext == "xlsx"@ ||
            ext == "ppt"@ || ext == "pptx"@ || ext == "odt"@ || ext == "ods"@ || ext == "odp"@ ||
            ext == "txt"@ || ext == "rtf"@ || ext == "epub"@ || ext == "mobi"@ || ext == "csv"@) ==> audio_exts()[i] != ext by {
        lemma_small_index(i);
    }
    assert forall|i: int| 0 <= i < archive_exts().len() implies (ext == "iso"@ || ext == "img"@ || ext == "dmg"@ || ext == "vdi"@ || ext == "qcow2"@ ||
            ext == "vmdk"@ || ext == "vhd"@ || ext == "vhdx"@ || ext == "ova"@ || ext == "appimage"@ ||
            ext == "deb"@ || ext == "rpm"@ || ext == "msi"@ || ext == "apk"@ || ext == "exe"@ ||
            ext == "flatpak"@ || ext == "flatpakref"@ || ext == "snap"@ || ext == "pkg"@ ||
            ext == "run"@ || ext == "bin"@ || ext == "dll"@ || ext == "so"@ || ext == "dylib"@ ||
            ext == "a"@ || ext == "o"@ || ext == "ko"@ || ext == "pdf"@ || ext == "doc"@ ||
            ext == "docx"@ || ext == "xls"@ || ext == "xlsx"@ || ext == "ppt"@ || ext == "pptx"@ ||
            ext == "odt"@ || ext == "ods"@ || ext == "odp"@ || ext == "txt"@ || ext == "rtf"@ ||
            ext == "epub"@ || ext == "mobi"@ || ext == "csv"@) ==> archive_exts()[i] != ext by {
        lemma_small_index(i);
    }
    assert forall|i: int| 0 <= i < disk_image_exts().len() implies (ext == "appimage"@ || ext == "deb"@ || ext == "rpm"@ || ext == "msi"@ || ext == "apk"@ ||
            ext == "exe"@ || ext == "flatpak"@ || ext == "flatpakref"@ || ext == "snap"@ ||
            ext == "pkg"@ || ext == "run"@ || ext == "bin"@ || ext == "dll"@ || ext == "so"@ ||
            ext == "dylib"@ || ext == "a"@ || ext == "o"@ || ext == "ko"@ || ext == "pdf"@ ||
            ext == "doc"@ || ext == "docx"@ || ext == "xls"@ || ext == "xlsx"@ || ext == "ppt"@ ||
            ext == "pptx"@ || ext == "odt"@ || ext == "ods"@ || ext == "odp"@ || ext == "txt"@ ||
            ext == "rtf"@ || ext == "epub"@ || ext == "mobi"@ || ext == "csv"@) ==> disk_image_exts()[i] != ext by {
        lemma_small_index(i);
    }
    assert forall|i: int| 0 <= i < application_exts().len() implies (ext == "bin"@ || ext == "dll"@ || ext == "so"@ || ext == "dylib"@ || ext == "a"@ ||
            ext == "o"@ || ext == "ko"@ || ext == "pdf"@ || ext == "doc"@ || ext == "docx"@ ||
            ext == "xls"@ || ext == "xlsx"@ || ext == "ppt"@ || ext == "pptx"@ || ext == "odt"@ ||
            ext == "ods"@ || ext == "odp"@ || ext == "txt"@ || ext == "rtf"@ || ext == "epub"@ ||
            ext == "mobi"@ || ext == "csv"@) ==> application_exts()[i] != ext by {
        lemma_small_index(i);
    }
    assert forall|i: int| 0 <= i < executable_exts().len() implies (ext == "pdf"@ || ext == "doc"@ || ext == "docx"@ || ext == "xls"@ || ext == "xlsx"@ ||
            ext == "ppt"@ || ext == "pptx"@ || ext == "odt"@ || ext == "ods"@ || ext == "odp"@ ||
            ext == "txt"@ || ext == "rtf"@ || ext == "epub"@ || ext == "mobi"@ || ext == "csv"@) ==> executable_exts()[i] != ext by {
        lemma_small_index(i);
    }
    if ext != "jpg"@ && ext != "jpeg"@ && ext != "png"@ && ext != "gif"@ && ext != "webp"@ &&
        ext != "svg"@ && ext != "bmp"@ && ext != "tiff"@ && ext != "tif"@ && ext != "heic"@ &&
        ext != "heif"@ && ext != "avif"@ && ext != "ico"@ && ext != "raw"@ && ext != "cr2"@ &&
        ext != "nef"@ && ext != "arw"@ && ext != "dng"@ && ext != "psd"@ && ext != "mp4"@ &&
        ext != "mkv"@ && ext != "avi"@ && ext != "mov"@ && ext != "webm"@ && ext != "flv"@ &&
        ext != "wmv"@ && ext != "m4v"@ && ext != "mpg"@ && ext != "mpeg"@ && ext != "3gp"@ &&
        ext != "ts"@ && ext != "m2ts"@ && ext != "mp3"@ && ext != "flac"@ && ext != "wav"@ &&
        ext != "ogg"@ && ext != "aac"@ && ext != "m4a"@ && ext != "opus"@ && ext != "wma"@ &&
        ext != "aiff"@ && ext != "zip"@ && ext != "tar"@ && ext != "gz"@ && ext != "tgz"@ &&
        ext != "bz2"@ && ext != "xz"@ && ext != "7z"@ && ext != "rar"@ && ext != "zst"@ &&
        ext != "lz4"@ && ext != "lzma"@ && ext != "cab"@ && ext != "iso"@ && ext != "img"@ &&
        ext != "dmg"@ && ext != "vdi"@ && ext != "qcow2"@ && ext != "vmdk"@ && ext != "vhd"@ &&
        ext != "vhdx"@ && ext != "ova"@ && ext != "appimage"@ && ext != "deb"@ && ext != "rpm"@ &&
        ext != "msi"@ && ext != "apk"@ && ext != "exe"@ && ext != "flatpak"@ &&
        ext != "flatpakref"@ && ext != "snap"@ && ext != "pkg"@ && ext != "run"@ &&
        ext != "bin"@ && ext != "dll"@ && ext != "so"@ && ext != "dylib"@ && ext != "a"@ &&
        ext != "o"@ && ext != "ko"@ && ext != "pdf"@ && ext != "doc"@ && ext != "docx"@ &&
        ext != "xls"@ && ext != "xlsx"@ && ext != "ppt"@ && ext != "pptx"@ && ext != "odt"@ &&
        ext != "ods"@ && ext != "odp"@ && ext != "txt"@ && ext != "rtf"@ && ext != "epub"@ &&
        ext != "mobi"@ && ext != "csv"@ {
        assert forall|i: int| 0 <= i < image_exts().len() implies image_exts()[i] != ext by {
            lemma_small_index(i);
        }
        assert forall|i: int| 0 <= i < video_exts().len() implies video_exts()[i] != ext by {
            lemma_small_index(i);
        }
        assert forall|i: int| 0 <= i < audio_exts().len() implies audio_exts()[i] != ext by {
            lemma_small_index(i);
        }
        assert forall|i: int| 0 <= i < archive_exts().len() implies archive_exts()[i] != ext by {
            lemma_small_index(i);
        }
        assert forall|i: int| 0 <= i < disk_image_exts().len() implies disk_image_exts()[i] != ext by {
            lemma_small_index(i);
        }
        assert forall|i: int| 0 <= i < application_exts().len() implies application_exts()[i] != ext by {
            lemma_small_index(i);
        }
        assert forall|i: int| 0 <= i < executable_exts().len() implies executable_exts()[i] != ext by {
            lemma_small_index(i);
        }
        assert forall|i: int| 0 <= i < document_exts().len() implies document_exts()[i] != ext by {
            lemma_small_index(i);
        }
    }
}

fn one_of(ext: &str, list: &Vec<&'static str>) -> (r: bool)
    ensures
        r == list@.map_values(|s: &str| s@).contains(ext@),
{
    let ghost lv = list@.map_values(|s: &str| s@);
    for i in 0..list.len()
        invariant
            lv == list@.map_values(|s: &str| s@),
            forall|j: int| 0 <= j < i ==> lv[j] != ext@,
    {
        assert(lv[i as int] == list@[i as int]@);
        if str_eq(list[i], ext) {
            return true;
        }
    }
    false
}

fn list_of(names: &[&'static str]) -> (r: Vec<&'static str>)
    ensures
        r@ == names@,
{
    let mut r: Vec<&'static str> = Vec::new();
    for i in 0..names.len()
        invariant
            r@ == names@.take(i as int),
    {
        r.push(names[i]);
        assert(r@ =~= names@.take(i + 1));
    }
    assert(names@.take(names.len() as int) =~= names@);
    r
}

/// The category of a lowercased extension (`other` for anything unknown).
pub fn classify(ext: &str) -> (r: &'static str)
    ensures
        r@ == category_of(ext@),
{
    let images = list_of(
        &[
            "jpg", "jpeg", "png", "gif", "webp", "svg", "bmp", "tiff", "tif", "heic", "heif", "avif", "ico",
            "raw", "cr2", "nef", "arw", "dng", "psd",
        ],
    );
    assert(images@.map_values(|s: &str| s@) =~= image_exts());
    if one_of(ext, &images) {
        return "images";
    }
    let videos = list_of(
        &["mp4", "mkv", "avi", "mov", "webm", "flv", "wmv", "m4v", "mpg", "mpeg", "3gp", "ts", "m2ts"],
    );
    assert(videos@.map_values(|s: &str| s@) =~= video_exts());
    if one_of(ext, &videos) {
        return "videos";
    }
    let audio = list_of(&["mp3", "flac", "wav", "ogg", "aac", "m4a", "opus", "wma", "aiff"]);
    assert(audio@.map_values(|s: &str| s@) =~= audio_exts());
    if one_of(ext, &audio) {
        return "audio";
    }
    let archives = list_of(
        &["zip", "tar", "gz", "tgz", "bz2", "xz", "7z", "rar", "zst", "lz4", "lzma", "cab"],
    );
    assert(archives@.map_values(|s: &str| s@) =~= archive_exts());
    if one_of(ext, &archives) {
        return "archives";
    }
    let disks = list_of(&["iso", "img", "dmg", "vdi", "qcow2", "vmdk", "vhd", "vhdx", "ova"]);
    assert(disks@.map_values(|s: &str| s@) =~= disk_image_exts());
    if one_of(ext, &disks) {
        return "disk_images";
    }
    let apps = list_of(
        &["appimage", "deb", "rpm", "msi", "apk", "exe", "flatpak", "flatpakref", "snap", "pkg", "run"],
    );
    assert(apps@.map_values(|s: &str| s@) =~= application_exts());
    if one_of(ext, &apps) {
        return "applications";
    }
    let exes = list_of(&["bin", "dll", "so", "dylib", "a", "o", "ko"]);
    assert(exes@.map_values(|s: &str| s@) =~= executable_exts());
    if one_of(ext, &exes) {
        return "executables";
    }
    let docs = list_of(
        &[
            "pdf", "doc", "docx", "xls", "xlsx", "ppt", "pptx", "odt", "ods", "odp", "txt", "rtf", "epub",
            "mobi", "csv",
        ],
    );
    assert(docs@.map_values(|s: &str| s@) =~= document_exts());
    if one_of(ext, &docs) {
        return "documents";
    }
    "other"
}

/// The category of a file: that of its lowercased extension (an empty one
/// when it has none).
pub open spec fn file_category(path: Seq<char>) -> Seq<char> {
    match split_ext(file_name(path)).1 {
        Some(e) => category_of(lowercase_of(e)),
        None => category_of(lowercase_of(Seq::empty())),
    }
}

/// The category of the file at `path`.
pub fn category_of_file(path: &str) -> (r: &'static str)
    ensures
        r@ == file_category(path@),
{
    let p = chars_of(path);
    let name = file_name_of(&p);
    let (_stem, ext) = stem_and_extension(&name);
    let e = match ext {
        Some(e) => string_of(&e),
        None => {
            let v: Vec<char> = Vec::new();
            string_of(&v)
        },
    };
    let low = lowercase(e.as_str());
    classify(low.as_str())
}

// ---------------------------------------------------------------------------
// Buckets
// ---------------------------------------------------------------------------

/// The running totals of one category while walking, with its largest files
/// so far (at most `TOP_N`, largest first).
#[derive(Clone, Debug)]
pub struct Bucket {
    pub bytes: u64,
    pub count: u64,
    pub top: Vec<(String, u64)>,
}

/// The sizes of a working list.
pub open spec fn sizes_of(l: Seq<(Seq<char>, u64)>) -> Seq<u64> {
    l.map_values(|e: (Seq<char>, u64)| e.1)
}

/// `x` inserted into `s` after every leading entry at least as large: one
/// step of a stable sort by size, largest first.
pub open spec fn insert_desc(s: Seq<(Seq<char>, u64)>, x: (Seq<char>, u64)) -> Seq<(Seq<char>, u64)>
    decreases s.len(),
{
    if s.len() == 0 {
        seq![x]
    } else if s[0].1 >= x.1 {
        seq![s[0]] + insert_desc(s.drop_first(), x)
    } else {
        seq![x] + s
    }
}

/// `s` sorted by size, largest first; equal sizes keep their order in `s`.
pub open spec fn sort_desc(s: Seq<(Seq<char>, u64)>) -> Seq<(Seq<char>, u64)>
    decreases s.len(),
{
    if s.len() == 0 {
        s
    } else {
        insert_desc(sort_desc(s.drop_last()), s.last())
    }
}

/// The first `n` entries of `s` (all of them when it is shorter).
pub open spec fn first_n(s: Seq<(Seq<char>, u64)>, n: int) -> Seq<(Seq<char>, u64)> {
    if 0 <= n < s.len() {
        s.take(n)
    } else {
        s
    }
}

/// The `n` largest entries of `s`, largest first, equal sizes in their order
/// in `s`.
pub open spec fn largest_of(s: Seq<(Seq<char>, u64)>, n: int) -> Seq<(Seq<char>, u64)> {
    first_n(sort_desc(s), n)
}

proof fn lemma_insert_len(s: Seq<(Seq<char>, u64)>, x: (Seq<char>, u64))
    ensures
        insert_desc(s, x).len() == s.len() + 1,
    decreases s.len(),
{
    if s.len() > 0 && s[0].1 >= x.1 {
        lemma_insert_len(s.drop_first(), x);
    }
}

/// Inserting where the first smaller entry stands.
proof fn lemma_insert_at(s: Seq<(Seq<char>, u64)>, x: (Seq<char>, u64), p: int)
    requires
        0 <= p <= s.len(),
        forall|i: int| 0 <= i < p ==> #[trigger] s[i].1 >= x.1,
        p < s.len() ==> s[p].1 < x.1,
    ensures
        insert_desc(s, x) == s.take(p).push(x) + s.skip(p),
    decreases p,
{
    if p == 0 {
        if s.len() > 0 {
            assert(insert_desc(s, x) == seq![x] + s);
        }
        assert(s.take(0).push(x) + s.skip(0) =~= seq![x] + s);
    } else {
        let t = s.drop_first();
        assert forall|i: int| 0 <= i < p - 1 implies #[trigger] t[i].1 >= x.1 by {
            assert(t[i] == s[i + 1]);
        }
        if p - 1 < t.len() {
            assert(t[p - 1] == s[p]);
        }
        lemma_insert_at(t, x, p - 1);
        assert(s[0].1 >= x.1);
        assert(seq![s[0]] + (t.take(p - 1).push(x) + t.skip(p - 1)) =~= s.take(p).push(x) + s.skip(p));
    }
}

/// Keeping only the first `n` entries before an insertion does not change
/// the first `n` entries after it.
proof fn lemma_insert_first_n(s: Seq<(Seq<char>, u64)>, x: (Seq<char>, u64), n: int)
    requires
        n >= 0,
    ensures
        first_n(insert_desc(first_n(s, n), x), n) == first_n(insert_desc(s, x), n),
    decreases s.len(),
{
    lemma_insert_len(s, x);
    lemma_insert_len(first_n(s, n), x);
    if n >= s.len() {
        assert(first_n(s, n) == s);
    } else if n == 0 {
        assert(first_n(insert_desc(first_n(s, n), x), n) =~= Seq::<(Seq<char>, u64)>::empty());
        assert(first_n(insert_desc(s, x), n) =~= Seq::<(Seq<char>, u64)>::empty());
    } else {
        let t = s.drop_first();
        let sn = s.take(n);
        assert(first_n(s, n) == sn);
        assert(sn[0] == s[0]);
        assert(sn.drop_first() =~= t.take(n - 1));
        assert(first_n(t, n - 1) == t.take(n - 1));
        if s[0].1 >= x.1 {
            lemma_insert_first_n(t, x, n - 1);
            lemma_insert_len(t, x);
            lemma_insert_len(t.take(n - 1), x);
            let a = insert_desc(t.take(n - 1), x);
            let b = insert_desc(t, x);
            assert(insert_desc(sn, x) == seq![s[0]] + a);
            assert(insert_desc(s, x) == seq![s[0]] + b);
            assert(first_n(a, n - 1) == first_n(b, n - 1));
            assert(first_n(seq![s[0]] + a, n) =~= seq![s[0]] + first_n(a, n - 1));
            assert(first_n(seq![s[0]] + b, n) =~= seq![s[0]] + first_n(b, n - 1));
        } else {
            assert(insert_desc(sn, x) == seq![x] + sn);
            assert(insert_desc(s, x) == seq![x] + s);
            assert(first_n(seq![x] + sn, n) =~= first_n(seq![x] + s, n));
        }
    }
}

/// Sizes never increase along `s`.
pub open spec fn sorted_desc(s: Seq<(Seq<char>, u64)>) -> bool {
    forall|i: int, j: int| 0 <= i < j < s.len() ==> #[trigger] s[i].1 >= #[trigger] s[j].1
}

/// Where `insert_desc` puts `x` in `s`: after the leading entries at least as
/// large.
pub open spec fn insert_pos(s: Seq<(Seq<char>, u64)>, x: (Seq<char>, u64)) -> int
    decreases s.len(),
{
    if s.len() > 0 && s[0].1 >= x.1 {
        1 + insert_pos(s.drop_first(), x)
    } else {
        0
    }
}

proof fn lemma_insert_pos(s: Seq<(Seq<char>, u64)>, x: (Seq<char>, u64))
    ensures
        0 <= insert_pos(s, x) <= s.len(),
        forall|i: int| 0 <= i < insert_pos(s, x) ==> #[trigger] s[i].1 >= x.1,
        insert_pos(s, x) < s.len() ==> s[insert_pos(s, x)].1 < x.1,
    decreases s.len(),
{
    if s.len() > 0 && s[0].1 >= x.1 {
        let t = s.drop_first();
        lemma_insert_pos(t, x);
        assert forall|i: int| 0 <= i < insert_pos(s, x) implies #[trigger] s[i].1 >= x.1 by {
            if i > 0 {
                assert(s[i] == t[i - 1]);
            }
        }
        if insert_pos(s, x) < s.len() {
            assert(s[insert_pos(s, x)] == t[insert_pos(t, x)]);
        }
    }
}

proof fn lemma_insert_sorted(s: Seq<(Seq<char>, u64)>, x: (Seq<char>, u64))
    requires
        sorted_desc(s),
    ensures
        sorted_desc(insert_desc(s, x)),
        insert_desc(s, x).to_multiset() == s.to_multiset().insert(x),
{
    lemma_insert_pos(s, x);
    let p = insert_pos(s, x);
    lemma_insert_at(s, x, p);
    let r = insert_desc(s, x);
    assert(r =~= s.insert(p, x));
    vstd::seq_lib::to_multiset_insert(s, p, x);
    assert forall|i: int, j: int| 0 <= i < j < r.len() implies #[trigger] r[i].1 >= #[trigger] r[j].1 by {
        if j < p {
            assert(r[i] == s[i] && r[j] == s[j]);
        } else if j == p {
            assert(r[j] == x && r[i] == s[i]);
        } else if i < p {
            assert(r[i] == s[i] && r[j] == s[j - 1]);
            assert(s[i].1 >= x.1);
            assert(s[p].1 < x.1);
        } else if i == p {
            assert(r[i] == x && r[j] == s[j - 1]);
            assert(s[p].1 < x.1);
            assert(s[p].1 >= s[j - 1].1 || p == j - 1);
        } else {
            assert(r[i] == s[i - 1] && r[j] == s[j - 1]);
        }
    }
}

/// A stable sort by size, largest first, is a sort: its sizes never increase
/// and it holds exactly the entries of `s`.
pub proof fn lemma_sort_desc(s: Seq<(Seq<char>, u64)>)
    ensures
        sorted_desc(sort_desc(s)),
        sort_desc(s).to_multiset() == s.to_multiset(),
        sort_desc(s).len() == s.len(),
    decreases s.len(),
{
    broadcast use vstd::seq_lib::group_to_multiset_ensures;
    if s.len() > 0 {
        let t = s.drop_last();
        lemma_sort_desc(t);
        lemma_insert_sorted(sort_desc(t), s.last());
        lemma_insert_len(sort_desc(t), s.last());
        assert(t.push(s.last()) =~= s);
    } else {
        assert(s.to_multiset() =~= vstd::multiset::Multiset::empty()) by {
            assert(s =~= Seq::<(Seq<char>, u64)>::empty());
        }
    }
}

/// The `n` largest are largest first, at most `n` of them, and each of them
/// is at least as large as every entry left out.
pub proof fn lemma_largest_of(s: Seq<(Seq<char>, u64)>, n: int)
    requires
        n >= 0,
    ensures
        sorted_desc(largest_of(s, n)),
        largest_of(s, n).len() == if n < s.len() { n } else { s.len() as int },
        largest_of(s, n) == sort_desc(s).take(largest_of(s, n).len() as int),
        forall|i: int, j: int|
            0 <= i < largest_of(s, n).len() <= j < s.len() ==> #[trigger] sort_desc(s)[i].1 >= #[trigger] sort_desc(s)[j].1,
{
    lemma_sort_desc(s);
    let t = sort_desc(s);
    if n < s.len() {
        assert(largest_of(s, n) == t.take(n));
    } else {
        assert(t.take(t.len() as int) =~= t);
    }
}

/// One more file: the `n` largest follow from the `n` largest before it.
pub proof fn lemma_largest_push(s: Seq<(Seq<char>, u64)>, x: (Seq<char>, u64), n: int)
    requires
        n >= 0,
    ensures
        largest_of(s.push(x), n) == first_n(insert_desc(largest_of(s, n), x), n),
{
    assert(s.push(x).drop_last() =~= s);
    assert(sort_desc(s.push(x)) == insert_desc(sort_desc(s), x));
    lemma_insert_first_n(sort_desc(s), x, n);
}

impl FileEntry {
    /// A field-by-field copy.
    pub fn duplicate(&self) -> (r: FileEntry)
        ensures
            r == *self,
    {
        FileEntry { path: self.path.clone(), size_bytes: self.size_bytes }
    }
}

impl TypeBucket {
    /// A field-by-field copy.
    pub fn duplicate(&self) -> (r: TypeBucket)
        ensures
            r.category == self.category,
            r.bytes == self.bytes,
            r.count == self.count,
            r.top@ == self.top@,
    {
        let mut top: Vec<FileEntry> = Vec::new();
        for i in 0..self.top.len()
            invariant
                top@ == self.top@.take(i as int),
        {
            top.push(self.top[i].duplicate());
            assert(top@ =~= self.top@.take(i + 1));
        }
        assert(self.top@.take(self.top.len() as int) =~= self.top@);
        TypeBucket { category: self.category.clone(), bytes: self.bytes, count: self.count, top }
    }
}

impl Bucket {
    /// An empty bucket.
    pub fn new() -> (r: Bucket)
        ensures
            r.bytes == 0,
            r.count == 0,
            r.top@.len() == 0,
    {
        Bucket { bytes: 0, count: 0, top: Vec::new() }
    }

    /// Count a file of `size` bytes at `path`: totals grow (wrapping, as the
    /// release build does) and the file joins the largest files if it ranks
    /// among the `TOP_N` largest (after those at least as large).
    pub fn push(&mut self, path: String, size: u64)
        ensures
            final(self).bytes == old(self).bytes.wrapping_add(size),
            final(self).count == old(self).count.wrapping_add(1),
            keyed(final(self).top@) == first_n(insert_desc(keyed(old(self).top@), (path@, size)), TOP_N as int),
            final(self).top@.len() <= TOP_N,
    {
        self.bytes = self.bytes.wrapping_add(size);
        self.count = self.count.wrapping_add(1);
        let ghost before = keyed(self.top@);
        let ghost x = (path@, size);
        let mut p: usize = 0;
        while p < self.top.len() && self.top[p].1 >= size
            invariant
                before == keyed(self.top@),
                p <= self.top.len(),
                forall|i: int| 0 <= i < p ==> #[trigger] before[i].1 >= size,
            decreases self.top.len() - p,
        {
            assert(before[p as int].1 == self.top@[p as int].1);
            p = p + 1;
        }
        proof {
            if p < self.top.len() {
                assert(before[p as int].1 == self.top@[p as int].1);
            }
            lemma_insert_at(before, x, p as int);
            lemma_insert_len(before, x);
        }
        self.top.insert(p, (path, size));
        assert(keyed(self.top@) =~= before.take(p as int).push(x) + before.skip(p as int));
        if self.top.len() > TOP_N {
            let ghost full = keyed(self.top@);
            self.top.truncate(TOP_N);
            assert(keyed(self.top@) =~= full.take(TOP_N as int));
        }
    }

    /// The finished bucket of `category`: its totals and its largest files,
    /// largest first.
    pub fn finish(&self, category: &str) -> (r: TypeBucket)
        ensures
            r.category@ == category@,
            r.bytes == self.bytes,
            r.count == self.count,
            r.top@.map_values(|f: FileEntry| (f.path@, f.size_bytes)) == keyed(self.top@),
    {
        let mut top: Vec<FileEntry> = Vec::new();
        for i in 0..self.top.len()
            invariant
                top@.map_values(|f: FileEntry| (f.path@, f.size_bytes)) == keyed(self.top@).take(i as int),
        {
            let ghost before = top@.map_values(|f: FileEntry| (f.path@, f.size_bytes));
            top.push(FileEntry { path: self.top[i].0.clone(), size_bytes: self.top[i].1 });
            assert(keyed(self.top@).take(i + 1) =~= keyed(self.top@).take(i as int).push(keyed(self.top@)[i as int]));
            assert(top@.map_values(|f: FileEntry| (f.path@, f.size_bytes)) =~= before.push(
                (self.top@[i as int].0@, self.top@[i as int].1),
            ));
        }
        assert(keyed(self.top@).take(self.top.len() as int) =~= keyed(self.top@));
        TypeBucket { category: category.to_owned(), bytes: self.bytes, count: self.count, top }
    }
}

// ---------------------------------------------------------------------------
// A whole walk
// ---------------------------------------------------------------------------

/// The categories met in `files`, each once, in order of first appearance.
pub open spec fn categories_met(files: Seq<(Seq<char>, u64)>) -> Seq<Seq<char>>
    decreases files.len(),
{
    if files.len() == 0 {
        Seq::empty()
    } else {
        let rest = categories_met(files.drop_last());
        let c = file_category(files.last().0);
        if rest.contains(c) {
            rest
        } else {
            rest.push(c)
        }
    }
}

/// The number of files of category `c` (wrapping).
pub open spec fn count_in(files: Seq<(Seq<char>, u64)>, c: Seq<char>) -> u64
    decreases files.len(),
{
    if files.len() == 0 {
        0
    } else if file_category(files.last().0) == c {
        count_in(files.drop_last(), c).wrapping_add(1)
    } else {
        count_in(files.drop_last(), c)
    }
}

/// The total size of the files of category `c` (wrapping).
pub open spec fn bytes_in(files: Seq<(Seq<char>, u64)>, c: Seq<char>) -> u64
    decreases files.len(),
{
    if files.len() == 0 {
        0
    } else if file_category(files.last().0) == c {
        bytes_in(files.drop_last(), c).wrapping_add(files.last().1)
    } else {
        bytes_in(files.drop_last(), c)
    }
}

/// The files of `files` of category `c`.
pub open spec fn files_in(files: Seq<(Seq<char>, u64)>, c: Seq<char>) -> Seq<(Seq<char>, u64)>
    decreases files.len(),
{
    if files.len() == 0 {
        Seq::empty()
    } else if file_category(files.last().0) == c {
        files_in(files.drop_last(), c).push(files.last())
    } else {
        files_in(files.drop_last(), c)
    }
}

/// The totals of each category met, in order of first appearance.
pub open spec fn bucket_totals(files: Seq<(Seq<char>, u64)>) -> Seq<(Seq<char>, u64)> {
    categories_met(files).map_values(|c: Seq<char>| (c, bytes_in(files, c)))
}

/// Bucket every regular file of a walk (path and size, in walk order) by type.
/// The buckets come largest total first (equal totals in order of first
/// appearance); each carries its category's total size and file count, and
/// lists its `TOP_N` largest files (all of them when fewer), largest first,
/// equal sizes in walk order.
pub fn scan_types(files: &Vec<(String, u64)>) -> (r: Vec<TypeBucket>)
    ensures
        top_by(
            bucket_totals(keyed(files@)),
            sizes_of(bucket_totals(keyed(files@))),
            categories_met(keyed(files@)).len() as int,
            r@.map_values(|b: TypeBucket| (b.category@, b.bytes)),
        ),
        forall|i: int|
            0 <= i < r@.len() ==> (#[trigger] r@[i]).count == count_in(keyed(files@), r@[i].category@)
                && r@[i].top@.len() <= TOP_N && r@[i].top@.map_values(|f: FileEntry| (f.path@, f.size_bytes))
                == largest_of(files_in(keyed(files@), r@[i].category@), TOP_N as int),
{
    let ghost fv = keyed(files@);
    let mut cats: Vec<(String, Bucket)> = Vec::new();
    for i in 0..files.len()
        invariant
            fv == keyed(files@),
            keyed(cats@).map_values(|e: (Seq<char>, Bucket)| e.0) == categories_met(fv.take(i as int)),
            forall|k: int|
                0 <= k < cats@.len() ==> (#[trigger] cats@[k]).1.bytes == bytes_in(fv.take(i as int), cats@[k].0@)
                    && cats@[k].1.count == count_in(fv.take(i as int), cats@[k].0@) && keyed(cats@[k].1.top@)
                    == largest_of(files_in(fv.take(i as int), cats@[k].0@), TOP_N as int),
    {
        let ghost t = fv.take(i + 1);
        assert(t.drop_last() =~= fv.take(i as int));
        assert(t.last() == fv[i as int]);
        assert(fv[i as int] == (files@[i as int].0@, files@[i as int].1));
        let cat = category_of_file(files[i].0.as_str());
        let ghost l = keyed(cats@);
        let ghost names = l.map_values(|e: (Seq<char>, Bucket)| e.0);
        proof {
            lemma_key_index(l, cat@);
        }
        proof {
            lemma_categories_distinct(fv.take(i as int));
        }
        match find_key(&cats, cat) {
            Some(k) => {
                let ghost before = cats@;
                let (name, mut b) = cats.remove(k);
                b.push(files[i].0.clone(), files[i].1);
                cats.insert(k, (name, b));
                assert(cats@ =~= before.update(k as int, (before[k as int].0, b)));
                assert(keyed(cats@).map_values(|e: (Seq<char>, Bucket)| e.0) =~= names);
                assert(names[k as int] == cat@);
                assert(names.contains(cat@));
                assert forall|m: int| 0 <= m < cats@.len() implies (#[trigger] cats@[m]).1.bytes == bytes_in(
                    t,
                    cats@[m].0@,
                ) && cats@[m].1.count == count_in(t, cats@[m].0@) && keyed(cats@[m].1.top@) == largest_of(
                    files_in(t, cats@[m].0@),
                    TOP_N as int,
                ) by {
                    if m != k {
                        assert(cats@[m] == before[m]);
                        assert(names[m] == before[m].0@);
                        assert(names[m] != names[k as int]);
                    } else {
                        assert(before[k as int].0@ == cat@);
                        lemma_largest_push(files_in(fv.take(i as int), cat@), fv[i as int], TOP_N as int);
                    }
                }
            },
            None => {
                let mut b = Bucket::new();
                b.push(files[i].0.clone(), files[i].1);
                let ghost before = cats@;
                cats.push((cat.to_owned(), b));
                assert(keyed(cats@).map_values(|e: (Seq<char>, Bucket)| e.0) =~= names.push(cat@));
                assert(!names.contains(cat@)) by {
                    if names.contains(cat@) {
                        let m = choose|m: int| 0 <= m < names.len() && names[m] == cat@;
                        assert(l[m].0 == cat@);
                    }
                }
                assert forall|m: int| 0 <= m < cats@.len() implies (#[trigger] cats@[m]).1.bytes == bytes_in(
                    t,
                    cats@[m].0@,
                ) && cats@[m].1.count == count_in(t, cats@[m].0@) && keyed(cats@[m].1.top@) == largest_of(
                    files_in(t, cats@[m].0@),
                    TOP_N as int,
                ) by {
                    if m < before.len() {
                        assert(cats@[m] == before[m]);
                        assert(l[m].0 == before[m].0@);
                        assert(l[m].0 != cat@);
                    } else {
                        assert(cats@[m].0@ == cat@);
                        lemma_absent_zero(fv.take(i as int), cat@);
                        lemma_largest_push(files_in(fv.take(i as int), cat@), fv[i as int], TOP_N as int);
                        assert(largest_of(Seq::<(Seq<char>, u64)>::empty(), TOP_N as int) =~= Seq::<(Seq<char>, u64)>::empty());
                    }
                }
            },
        }
    }
    assert(fv.take(files.len() as int) =~= fv);
    let mut finished: Vec<TypeBucket> = Vec::new();
    let mut keys: Vec<u64> = Vec::new();
    let ghost names = keyed(cats@).map_values(|e: (Seq<char>, Bucket)| e.0);
    for i in 0..cats.len()
        invariant
            names == keyed(cats@).map_values(|e: (Seq<char>, Bucket)| e.0),
            names == categories_met(fv),
            forall|k: int|
                0 <= k < cats@.len() ==> (#[trigger] cats@[k]).1.bytes == bytes_in(fv, cats@[k].0@)
                    && cats@[k].1.count == count_in(fv, cats@[k].0@) && keyed(cats@[k].1.top@) == largest_of(
                    files_in(fv, cats@[k].0@),
                    TOP_N as int,
                ),
            finished@.len() == i,
            keys@.len() == i,
            forall|k: int|
                0 <= k < i ==> (#[trigger] finished@[k]).category@ == names[k] && finished@[k].bytes == keys@[k]
                    && keys@[k] == bytes_in(fv, names[k]) && finished@[k].count == count_in(fv, names[k])
                    && finished@[k].top@.len() <= TOP_N && finished@[k].top@.map_values(
                    |f: FileEntry| (f.path@, f.size_bytes),
                ) == largest_of(files_in(fv, names[k]), TOP_N as int),
    {
        assert(names[i as int] == cats@[i as int].0@);
        let b = cats[i].1.finish(cats[i].0.as_str());
        assert(b.top@.len() == b.top@.map_values(|f: FileEntry| (f.path@, f.size_bytes)).len());
        keys.push(b.bytes);
        finished.push(b);
    }
    let order = rank_desc(&keys);
    let ghost totals = bucket_totals(fv);
    assert(names.len() == keys@.len());
    assert forall|k: int| 0 <= k < keys@.len() implies sizes_of(totals)[k] == keys@[k] by {
        assert(totals[k] == (names[k], bytes_in(fv, names[k])));
        assert(finished@[k].bytes == keys@[k]);
        assert(sizes_of(totals)[k] == totals[k].1);
    }
    assert(sizes_of(totals) =~= keys@);
    let mut r: Vec<TypeBucket> = Vec::new();
    for i in 0..order.len()
        invariant
            order@.len() == finished@.len(),
            finished@.len() == keys@.len(),
            stable_desc(keys@, order@),
            r@.len() == i,
            forall|j: int|
                0 <= j < i ==> (#[trigger] r@[j]).category == finished@[order@[j] as int].category
                    && r@[j].bytes == finished@[order@[j] as int].bytes && r@[j].count
                    == finished@[order@[j] as int].count && r@[j].top@ == finished@[order@[j] as int].top@,
    {
        r.push(finished[order[i]].duplicate());
    }
    let ghost rv = r@.map_values(|b: TypeBucket| (b.category@, b.bytes));
    assert(rv.len() == totals.len());
    assert forall|j: int| 0 <= j < rv.len() implies #[trigger] rv[j] == totals[order@[j] as int] by {
        let k = order@[j] as int;
        assert(finished@[k].category@ == names[k]);
    }
    assert(stable_desc(sizes_of(totals), order@));
    r
}

pub proof fn lemma_absent_zero(files: Seq<(Seq<char>, u64)>, c: Seq<char>)
    requires
        !categories_met(files).contains(c),
    ensures
        bytes_in(files, c) == 0,
        count_in(files, c) == 0,
        files_in(files, c).len() == 0,
    decreases files.len(),
{
    if files.len() > 0 {
        let rest = categories_met(files.drop_last());
        if rest.contains(c) {
            let k = choose|k: int| 0 <= k < rest.len() && rest[k] == c;
            let m = categories_met(files);
            if !rest.contains(file_category(files.last().0)) {
                assert(m[k] == c);
            }
            assert(m.contains(c));
        }
        if file_category(files.last().0) == c {
            assert(categories_met(files).contains(c)) by {
                let m = categories_met(files);
                if rest.contains(c) {
                } else {
                    assert(m[m.len() - 1] == c);
                }
            }
        }
        lemma_absent_zero(files.drop_last(), c);
    }
}

/// Each category is met once.
pub proof fn lemma_categories_distinct(files: Seq<(Seq<char>, u64)>)
    ensures
        forall|a: int, b: int|
            0 <= a < b < categories_met(files).len() ==> #[trigger] categories_met(files)[a]
                != #[trigger] categories_met(files)[b],
    decreases files.len(),
{
    if files.len() > 0 {
        lemma_categories_distinct(files.drop_last());
        let rest = categories_met(files.drop_last());
        let m = categories_met(files);
        assert forall|a: int, b: int| 0 <= a < b < m.len() implies #[trigger] m[a] != #[trigger] m[b] by {
            if b < rest.len() {
                assert(m[a] == rest[a] && m[b] == rest[b]);
            } else {
                assert(m[a] == rest[a]);
                assert(!rest.contains(m[b]));
            }
        }
    }
}

} // verus!
