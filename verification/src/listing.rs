//! The interface listing report: one header line, then each interface's name
//! followed by one indented line per assigned address.
use vstd::prelude::*;
use vstd::string::StringExecFns;

verus! {

/// One network interface as the listing shows it: its name and the text of
/// each address assigned to it.
pub struct InterfaceInfo {
    pub name: String,
    pub addrs: Vec<String>,
}

/// The line that heads the listing.
pub open spec fn header_line() -> Seq<char> {
    "Detected Network Interfaces:"@
}

/// The indented line shown for one assigned address.
pub open spec fn addr_line(a: Seq<char>) -> Seq<char> {
    "  IP: "@ + a
}

/// The lines shown for one interface: its name, then one line per address.
pub open spec fn interface_lines(inf: InterfaceInfo) -> Seq<Seq<char>> {
    seq![inf.name@] + Seq::new(inf.addrs@.len(), |j: int| addr_line(inf.addrs@[j]@))
}

/// The lines for the interfaces from position `i` on.
pub open spec fn listing_from(ifs: Seq<InterfaceInfo>, i: int) -> Seq<Seq<char>>
    decreases ifs.len() - i,
{
    if i < 0 || i >= ifs.len() {
        Seq::empty()
    } else {
        interface_lines(ifs[i]) + listing_from(ifs, i + 1)
    }
}

/// The whole listing: the header line, then every interface's lines in order.
/// With no interfaces there is the header line and nothing else.
pub open spec fn listing_lines(ifs: Seq<InterfaceInfo>) -> Seq<Seq<char>> {
    seq![header_line()] + listing_from(ifs, 0)
}

/// The views of a sequence of strings.
pub open spec fn views_of(ss: Seq<String>) -> Seq<Seq<char>> {
    Seq::new(ss.len(), |j: int| ss[j]@)
}

/// Renders the listing report: exactly [`listing_lines`] of the given
/// interfaces, one string per output line.
pub fn format_interface_listing(ifs: &Vec<InterfaceInfo>) -> (r: Vec<String>)
    ensures
        r@.len() == listing_lines(ifs@).len(),
        forall|j: int|
            0 <= j < r@.len() ==> #[trigger] r@[j]@ == listing_lines(ifs@)[j],
{
    let mut out: Vec<String> = Vec::new();
    out.push(String::from_str("Detected Network Interfaces:"));
    proof {
        assert(views_of(out@) + listing_from(ifs@, 0) =~= listing_lines(ifs@));
    }
    let mut i: usize = 0;
    while i < ifs.len()
        invariant
            i <= ifs@.len(),
            views_of(out@) + listing_from(ifs@, i as int) == listing_lines(ifs@),
        decreases ifs@.len() - i,
    {
        let inf = &ifs[i];
        let ghost out_start = out@;
        out.push(inf.name.clone());
        proof {
            assert(views_of(out@) =~= views_of(out_start) + interface_lines(ifs@[i as int])
                .subrange(0, 1));
        }
        let mut j: usize = 0;
        while j < inf.addrs.len()
            invariant
                j <= inf.addrs@.len(),
                inf == &ifs@[i as int],
                0 <= i < ifs@.len(),
                views_of(out@) == views_of(out_start) + interface_lines(ifs@[i as int]).subrange(
                    0,
                    1 + j as int,
                ),
            decreases inf.addrs@.len() - j,
        {
            let mut line = String::from_str("  IP: ");
            line.append(inf.addrs[j].as_str());
            let ghost out_before = out@;
            out.push(line);
            proof {
                let il = interface_lines(ifs@[i as int]);
                assert(il[1 + j as int] == addr_line(ifs@[i as int].addrs@[j as int]@));
                assert(views_of(out@) =~= views_of(out_before).push(line@));
                assert((views_of(out_start) + il.subrange(0, 1 + j as int)).push(line@)
                    =~= views_of(out_start) + il.subrange(0, 1 + (j + 1)));
            }
            j = j + 1;
        }
        proof {
            assert(interface_lines(ifs@[i as int]).subrange(
                0,
                1 + inf.addrs@.len() as int,
            ) =~= interface_lines(ifs@[i as int]));
            assert(views_of(out@) + listing_from(ifs@, i + 1) =~= listing_lines(ifs@));
        }
        i = i + 1;
    }
    proof {
        assert(views_of(out@) =~= listing_lines(ifs@));
    }
    out
}

} // verus!
