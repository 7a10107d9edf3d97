//! The static catalog of candidate name-resolution servers.

use vstd::prelude::*;
use crate::model::Candidate;

verus! {

/// The catalog contents: each candidate's name and address, in catalog
/// order.  The order matters: it is the tie-break order of the ranking.
pub open spec fn default_catalog_spec() -> Seq<(Seq<char>, Seq<char>)> {
    seq![
        ("Cloudflare Primary"@, "1.1.1.1"@),
        ("Cloudflare Secondary"@, "1.0.0.1"@),
        ("Google Primary"@, "8.8.8.8"@),
        ("Google Secondary"@, "8.8.4.4"@),
        ("Quad9 Primary"@, "9.9.9.9"@),
        ("Quad9 Secondary"@, "149.112.112.112"@),
        ("OpenDNS Primary"@, "208.67.222.222"@),
        ("OpenDNS Secondary"@, "208.67.220.220"@),
        ("AdGuard Primary"@, "94.140.14.14"@),
        ("AdGuard Secondary"@, "94.140.15.15"@),
        ("CleanBrowsing Primary"@, "185.228.168.9"@),
        ("CleanBrowsing Secondary"@, "185.228.169.9"@),
        ("Level3 Primary"@, "4.2.2.1"@),
        ("Level3 Secondary"@, "4.2.2.2"@),
        ("Comodo Primary"@, "8.26.56.26"@),
        ("Comodo Secondary"@, "8.20.247.20"@),
        ("Verisign Primary"@, "64.6.64.6"@),
        ("Verisign Secondary"@, "64.6.65.6"@),
        ("NextDNS"@, "45.90.28.167"@),
    ]
}

/// Append one candidate built from literal name and address.
fn push_candidate(v: &mut Vec<Candidate>, name: &str, address: &str)
    ensures
        final(v)@.len() == old(v)@.len() + 1,
        forall|i: int| 0 <= i < old(v)@.len() ==> final(v)@[i] == old(v)@[i],
        final(v)@[old(v)@.len() as int].name@ == name@,
        final(v)@[old(v)@.len() as int].address@ == address@,
{
    v.push(Candidate { name: name.to_owned(), address: address.to_owned() });
}

/// Build the candidate catalog.
pub fn default_catalog() -> (c: Vec<Candidate>)
    ensures
        c@.len() == default_catalog_spec().len(),
        forall|i: int|
            0 <= i < c@.len() ==> c@[i].name@ == default_catalog_spec()[i].0 && c@[i].address@
                == default_catalog_spec()[i].1,
{
    let mut c: Vec<Candidate> = Vec::new();
    push_candidate(&mut c, "Cloudflare Primary", "1.1.1.1");
    push_candidate(&mut c, "Cloudflare Secondary", "1.0.0.1");
    push_candidate(&mut c, "Google Primary", "8.8.8.8");
    push_candidate(&mut c, "Google Secondary", "8.8.4.4");
    push_candidate(&mut c, "Quad9 Primary", "9.9.9.9");
    push_candidate(&mut c, "Quad9 Secondary", "149.112.112.112");
    push_candidate(&mut c, "OpenDNS Primary", "208.67.222.222");
    push_candidate(&mut c, "OpenDNS Secondary", "208.67.220.220");
    push_candidate(&mut c, "AdGuard Primary", "94.140.14.14");
    push_candidate(&mut c, "AdGuard Secondary", "94.140.15.15");
    push_candidate(&mut c, "CleanBrowsing Primary", "185.228.168.9");
    push_candidate(&mut c, "CleanBrowsing Secondary", "185.228.169.9");
    push_candidate(&mut c, "Level3 Primary", "4.2.2.1");
    push_candidate(&mut c, "Level3 Secondary", "4.2.2.2");
    push_candidate(&mut c, "Comodo Primary", "8.26.56.26");
    push_candidate(&mut c, "Comodo Secondary", "8.20.247.20");
    push_candidate(&mut c, "Verisign Primary", "64.6.64.6");
    push_candidate(&mut c, "Verisign Secondary", "64.6.65.6");
    push_candidate(&mut c, "NextDNS", "45.90.28.167");
    c
}

} // verus!
