//! The plain-text library report.
use crate::text::{chars_of, decimal, decimal_vec, push_all, string_of};
use crate::types::Manifest;
use vstd::prelude::*;

verus! {

/// The text report of a manifest; `size_mb` is the total size in MiB as
/// printed with two decimals.
pub open spec fn text_report(m: Manifest, size_mb: Seq<char>) -> Seq<char> {
    "📚 LIBRARY REPORT\n"@ + "================\n\n"@ + "Source: "@ + m.source@ + "\n"@
        + "Generated: "@ + m.generated@ + "\n\n"@ + "📊 STATISTICS\n"@ + "-------------\n"@
        + "Total files: "@ + decimal(m.stats.total_files as nat) + "\n"@ + "Total size: "@ + size_mb
        + " MB\n"@ + "  🎵 Audio: "@ + decimal(m.stats.audio_files as nat) + " files\n"@
        + "  📖 Ebooks: "@ + decimal(m.stats.ebook_files as nat) + " files\n"@ + "  🎨 Comics: "@
        + decimal(m.stats.comic_files as nat) + " files\n"@ + "  🗑️  Junk: "@ + decimal(
        m.stats.junk_files as nat,
    ) + " files\n"@
}

fn append_str(out: &mut Vec<char>, s: &str)
    ensures
        final(out)@ == old(out)@ + s@,
{
    push_all(out, &chars_of(s));
}

fn append_count(out: &mut Vec<char>, n: usize)
    ensures
        final(out)@ == old(out)@ + decimal(n as nat),
{
    push_all(out, &decimal_vec(n as u64));
}

/// The text report of a manifest, given its total size in MiB as text.
pub fn generate_text_report(manifest: &Manifest, size_mb: &str) -> (r: String)
    ensures
        r@ == text_report(*manifest, size_mb@),
{
    let mut out: Vec<char> = Vec::new();
    append_str(&mut out, "📚 LIBRARY REPORT\n");
    append_str(&mut out, "================\n\n");
    append_str(&mut out, "Source: ");
    append_str(&mut out, manifest.source.as_str());
    append_str(&mut out, "\n");
    append_str(&mut out, "Generated: ");
    append_str(&mut out, manifest.generated.as_str());
    append_str(&mut out, "\n\n");
    append_str(&mut out, "📊 STATISTICS\n");
    append_str(&mut out, "-------------\n");
    append_str(&mut out, "Total files: ");
    append_count(&mut out, manifest.stats.total_files);
    append_str(&mut out, "\n");
    append_str(&mut out, "Total size: ");
    append_str(&mut out, size_mb);
    append_str(&mut out, " MB\n");
    append_str(&mut out, "  🎵 Audio: ");
    append_count(&mut out, manifest.stats.audio_files);
    append_str(&mut out, " files\n");
    append_str(&mut out, "  📖 Ebooks: ");
    append_count(&mut out, manifest.stats.ebook_files);
    append_str(&mut out, " files\n");
    append_str(&mut out, "  🎨 Comics: ");
    append_count(&mut out, manifest.stats.comic_files);
    append_str(&mut out, " files\n");
    append_str(&mut out, "  🗑️  Junk: ");
    append_count(&mut out, manifest.stats.junk_files);
    append_str(&mut out, " files\n");
    string_of(&out)
}

} // verus!
