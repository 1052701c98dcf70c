//! Turning a captured scan listing into the list of discovered networks.
//!
//! The caller runs the external scan command and hands over its exit status
//! and raw standard output; everything from there on is pure computation:
//! lossy text decoding, line and token splitting, and extraction of the
//! second token of every line (after the header) that has at least three.

use vstd::prelude::*;

use crate::parse::{chars_of, parse_scan, split_lines_exec, ssids_of_lines, split_lines,
    tokens_exec, tokens_of, views_of};

verus! {

/// One discovered wireless network, identified by its SSID alone.  No
/// uniqueness or validity is promised: duplicates and empty names can occur,
/// since the name is whatever the scan listing showed.
pub struct WifiNetwork {
    pub ssid: String,
}

/// The SSIDs of a list of networks, element by element.
pub open spec fn ssids_view(nets: Seq<WifiNetwork>) -> Seq<Seq<char>> {
    Seq::new(nets.len(), |i: int| nets[i].ssid@)
}

/// Relies on `String::push`: appends the given character to the end of the
/// string.
pub assume_specification[ String::push ](s: &mut String, ch: char)
    ensures
        final(s)@ == old(s)@.push(ch),
;

/// The characters of `cs`, in order, as an owned string.
pub fn string_of(cs: &Vec<char>) -> (s: String)
    ensures
        s@ == cs@,
{
    let mut s = String::new();
    let mut i: usize = 0;
    while i < cs.len()
        invariant
            i <= cs@.len(),
            s@ == cs@.take(i as int),
        decreases cs@.len() - i,
    {
        s.push(cs[i]);
        proof {
            assert(cs@.take(i as int).push(cs@[i as int]) =~= cs@.take(i as int + 1));
        }
        i = i + 1;
    }
    proof {
        assert(cs@.take(cs@.len() as int) =~= cs@);
    }
    s
}

/// What `String::from_utf8_lossy` makes of a byte sequence: the text whose
/// well-formed UTF-8 stretches are decoded as they stand and whose ill-formed
/// stretches are replaced by the replacement character.  It depends on the
/// bytes alone.
pub uninterp spec fn lossy_of(bytes: Seq<u8>) -> Seq<char>;

/// Relies on `String::from_utf8_lossy`: decodes the bytes as UTF-8,
/// substituting the replacement character for ill-formed stretches, and never
/// fails; no bytes give the empty text.
#[verifier::external_body]
fn decode_lossy(bytes: &[u8]) -> (text: String)
    ensures
        text@ == lossy_of(bytes@),
        bytes@.len() == 0 ==> text@.len() == 0,
{
    String::from_utf8_lossy(bytes).into_owned()
}

/// The networks named by the text of a scan listing: the first line is
/// discarded as a column header, and every further line with at least three
/// whitespace-separated tokens contributes its second token as an SSID, in
/// line order.
pub fn parse_scan_text(text: &str) -> (nets: Vec<WifiNetwork>)
    ensures
        ssids_view(nets@) == parse_scan(text@),
{
    let cs = chars_of(text);
    let lines = split_lines_exec(&cs);
    let ghost all: Seq<Seq<char>> = split_lines(text@);
    let mut nets: Vec<WifiNetwork> = Vec::new();
    let mut i: usize = 1;
    proof {
        assert(all.drop_first() =~= all.skip(1));
        assert(ssids_view(nets@) =~~= Seq::<Seq<char>>::empty());
    }
    while i < lines.len()
        invariant
            1 <= i <= lines@.len(),
            views_of(lines@) == all,
            all == split_lines(text@),
            parse_scan(text@) == ssids_view(nets@) + ssids_of_lines(all.skip(i as int)),
        decreases lines@.len() - i,
    {
        proof {
            assert(all.skip(i as int) =~= seq![all[i as int]] + all.skip(i as int + 1));
            assert(all.skip(i as int).drop_first() =~= all.skip(i as int + 1));
            assert(lines@[i as int]@ == all[i as int]);
        }
        let toks = tokens_exec(&lines[i]);
        if toks.len() >= 3 {
            let ssid = string_of(&toks[1]);
            let net = WifiNetwork { ssid };
            nets.push(net);
            proof {
                assert(ssid@ == tokens_of(all[i as int])[1]);
                assert(ssids_view(nets@) =~~= ssids_view(nets@.drop_last()) + seq![
                    tokens_of(all[i as int])[1],
                ]);
                assert(ssids_view(nets@) + ssids_of_lines(all.skip(i as int + 1))
                    =~~= (ssids_view(nets@.drop_last()) + seq![tokens_of(all[i as int])[1]])
                    + ssids_of_lines(all.skip(i as int + 1)));
            }
        }
        i = i + 1;
    }
    proof {
        assert(all.skip(all.len() as int) =~= Seq::<Seq<char>>::empty());
        assert(ssids_view(nets@) + Seq::<Seq<char>>::empty() =~~= ssids_view(nets@));
    }
    nets
}

/// The networks reported by one run of the external scan command, given its
/// exit status and its raw standard output.  On success the output text is
/// parsed; on failure the list is empty, whatever the output held.
pub fn list_networks(success: bool, stdout: &[u8]) -> (nets: Vec<WifiNetwork>)
    ensures
        success ==> ssids_view(nets@) == parse_scan(lossy_of(stdout@)),
        !success ==> nets@.len() == 0,
{
    if success {
        let text = decode_lossy(stdout);
        parse_scan_text(text.as_str())
    } else {
        Vec::new()
    }
}

} // verus!
