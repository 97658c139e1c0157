//! Putting a lease into effect, and taking it back.

use crate::addr::{
    address_value, addresses_among, dotted, dotted_text, lemma_dotted_chars,
    lemma_dotted_reads_back, lemma_spaced_reads_back, mask_bits, prefix_to_dotted, push_dotted,
    spaced, spaced_text, Ipv4Addr,
};
use crate::args::argument_texts;
use crate::lease::{Lease, LeaseView};
use crate::number::{decimal, decimal_text, lemma_decimal_reads_back, number_value, NumberError};
use crate::text::{lemma_pieces_join, lemma_pieces_single, pieces, words};
use vstd::prelude::*;
use vstd::string::*;

verus! {

/// How far a lease is in effect.
#[derive(Clone, Copy, Debug, PartialEq, Eq, Structural)]
pub enum ApplyPhase {
    /// Nothing was done yet.
    Start,
    /// The old addresses were to be removed.
    Flushing,
    /// The address was to be added.
    Adding,
    /// The interface was to be brought up.
    Raising,
    /// The default route was to be replaced.
    Replacing,
    /// The default route was to be deleted.
    Deleting,
    /// The default route was to be added.
    Routing,
    /// The name servers were to be written down.
    Naming,
    /// All is done, or something went wrong.
    End,
}

/// What to do next.
pub enum ApplyAction {
    /// Run the network program with these arguments.
    Run(Vec<String>),
    /// Run the network program with these arguments, without input and output.
    RunQuiet(Vec<String>),
    /// Make this the contents of the resolver's file.
    Resolve(String),
    /// The lease is in effect.
    Done,
    /// What was done last has failed, and that matters.
    Fail,
    /// Nothing: it was all over before.
    Idle,
}

/// What an [`ApplyAction`] stands for.
#[verifier::ext_equal]
pub ghost enum ApplyActionView {
    Run(Seq<Seq<char>>),
    RunQuiet(Seq<Seq<char>>),
    Resolve(Seq<char>),
    Done,
    Fail,
    Idle,
}

impl View for ApplyAction {
    type V = ApplyActionView;

    open spec fn view(&self) -> ApplyActionView {
        match self {
            ApplyAction::Run(args) => ApplyActionView::Run(argument_texts(args@)),
            ApplyAction::RunQuiet(args) => ApplyActionView::RunQuiet(argument_texts(args@)),
            ApplyAction::Resolve(text) => ApplyActionView::Resolve(text@),
            ApplyAction::Done => ApplyActionView::Done,
            ApplyAction::Fail => ApplyActionView::Fail,
            ApplyAction::Idle => ApplyActionView::Idle,
        }
    }
}

/// Removes the addresses of `iface`.
pub open spec fn flush(iface: Seq<char>) -> Seq<Seq<char>> {
    seq!["addr"@, "flush"@, "dev"@, iface]
}

/// An address with the length of its network's prefix.
pub open spec fn with_prefix(lease: LeaseView) -> Seq<char> {
    dotted(lease.ip).push('/') + decimal(lease.prefix as nat)
}

/// Gives `iface` the address of `lease`.
pub open spec fn add_address(iface: Seq<char>, lease: LeaseView) -> Seq<Seq<char>> {
    seq!["addr"@, "add"@, with_prefix(lease), "dev"@, iface]
}

/// Brings `iface` up.
pub open spec fn bring_up(iface: Seq<char>) -> Seq<Seq<char>> {
    seq!["link"@, "set"@, iface, "up"@]
}

/// Sets the default route by way of `gateway`: `how` is to replace or to add it.
pub open spec fn route(how: Seq<char>, gateway: Ipv4Addr, iface: Seq<char>) -> Seq<Seq<char>> {
    seq!["route"@, how, "default"@, "via"@, dotted(gateway), "dev"@, iface]
}

/// Deletes the default route.
pub open spec fn delete_route() -> Seq<Seq<char>> {
    seq!["route"@, "del"@, "default"@]
}

/// The resolver's file for the name servers `dns`.
pub open spec fn resolver_text(dns: Seq<Ipv4Addr>) -> Seq<char>
    decreases dns.len(),
{
    if dns.len() == 0 {
        Seq::empty()
    } else {
        resolver_text(dns.drop_last()) + ("nameserver "@ + dotted(dns.last())).push('\n')
    }
}

/// What follows on `phase` once what it stands for was done, well or not (`ok`). That the old
/// addresses were removed does not matter. Where a default route cannot be replaced, the old one
/// is deleted, which need not succeed, and the new one added.
pub open spec fn apply_next(
    phase: ApplyPhase,
    ok: bool,
    iface: Seq<char>,
    lease: LeaseView,
) -> (ApplyPhase, ApplyActionView) {
    let name = (ApplyPhase::Naming, ApplyActionView::Resolve(resolver_text(lease.dns)));
    let fail = (ApplyPhase::End, ApplyActionView::Fail);
    match phase {
        ApplyPhase::Start => (ApplyPhase::Flushing, ApplyActionView::Run(flush(iface))),
        ApplyPhase::Flushing => (
            ApplyPhase::Adding,
            ApplyActionView::Run(add_address(iface, lease)),
        ),
        ApplyPhase::Adding => if ok {
            (ApplyPhase::Raising, ApplyActionView::Run(bring_up(iface)))
        } else {
            fail
        },
        ApplyPhase::Raising => if !ok {
            fail
        } else if lease.routers.len() > 0 {
            (
                ApplyPhase::Replacing,
                ApplyActionView::Run(route("replace"@, lease.routers[0], iface)),
            )
        } else {
            name
        },
        ApplyPhase::Replacing => if ok {
            name
        } else {
            (ApplyPhase::Deleting, ApplyActionView::RunQuiet(delete_route()))
        },
        ApplyPhase::Deleting => if lease.routers.len() > 0 {
            (ApplyPhase::Routing, ApplyActionView::Run(route("add"@, lease.routers[0], iface)))
        } else {
            name
        },
        ApplyPhase::Routing => if ok {
            name
        } else {
            fail
        },
        ApplyPhase::Naming => if ok {
            (ApplyPhase::End, ApplyActionView::Done)
        } else {
            fail
        },
        ApplyPhase::End => (ApplyPhase::End, ApplyActionView::Idle),
    }
}

fn owned(args: &[&str]) -> (r: Vec<String>)
    ensures
        argument_texts(r@) == args@.map_values(|s: &str| s@),
{
    let mut out: Vec<String> = Vec::new();
    let mut i: usize = 0;
    while i < args.len()
        invariant
            i <= args.len(),
            out@.len() == i,
            forall|k: int| 0 <= k < i ==> #[trigger] out@[k]@ == args@[k]@,
        decreases args.len() - i,
    {
        out.push(args[i].to_owned());
        i += 1;
    }
    proof {
        assert(argument_texts(out@) =~= args@.map_values(|s: &str| s@));
    }
    out
}

fn resolver_file(dns: &Vec<Ipv4Addr>) -> (r: String)
    ensures
        r@ == resolver_text(dns@),
{
    let mut out: String = String::new();
    let mut i: usize = 0;
    proof {
        assert(out@ =~= resolver_text(dns@.take(0)));
    }
    while i < dns.len()
        invariant
            i <= dns.len(),
            out@ == resolver_text(dns@.take(i as int)),
        decreases dns.len() - i,
    {
        proof {
            assert(dns@.take(i + 1).drop_last() =~= dns@.take(i as int));
        }
        let ghost before = out@;
        out.append("nameserver ");
        push_dotted(&mut out, dns[i]);
        out.push('\n');
        proof {
            assert(out@ =~= before + ("nameserver "@ + dotted(dns@[i as int])).push('\n'));
        }
        i += 1;
    }
    proof {
        assert(dns@.take(dns@.len() as int) =~= dns@);
    }
    out
}

fn add_route(how: &str, gateway: Ipv4Addr, iface: &str) -> (r: Vec<String>)
    ensures
        argument_texts(r@) == route(how@, gateway, iface@),
{
    let gateway_text: String = dotted_text(gateway);
    let r: Vec<String> = owned(
        &["route", how, "default", "via", gateway_text.as_str(), "dev", iface],
    );
    proof {
        assert(argument_texts(r@) =~= route(how@, gateway, iface@));
    }
    r
}

/// The arguments that remove the addresses of `iface`.
pub fn flush_args(iface: &str) -> (r: Vec<String>)
    ensures
        argument_texts(r@) == flush(iface@),
{
    let r: Vec<String> = owned(&["addr", "flush", "dev", iface]);
    proof {
        assert(argument_texts(r@) =~= flush(iface@));
    }
    r
}

/// The arguments that bring `iface` up.
pub fn bring_up_args(iface: &str) -> (r: Vec<String>)
    ensures
        argument_texts(r@) == bring_up(iface@),
{
    let r: Vec<String> = owned(&["link", "set", iface, "up"]);
    proof {
        assert(argument_texts(r@) =~= bring_up(iface@));
    }
    r
}

/// The arguments that delete the default route.
pub fn delete_route_args() -> (r: Vec<String>)
    ensures
        argument_texts(r@) == delete_route(),
{
    let r: Vec<String> = owned(&["route", "del", "default"]);
    proof {
        assert(argument_texts(r@) =~= delete_route());
    }
    r
}

fn add_address_args(iface: &str, lease: &Lease) -> (r: Vec<String>)
    ensures
        argument_texts(r@) == add_address(iface@, lease@),
{
    let mut address: String = dotted_text(lease.ip);
    address.push('/');
    address.append(decimal_text(lease.prefix as u64).as_str());
    let r: Vec<String> = owned(&["addr", "add", address.as_str(), "dev", iface]);
    proof {
        assert(address@ =~= with_prefix(lease@));
        assert(argument_texts(r@) =~= add_address(iface@, lease@));
    }
    r
}

/// What follows on `phase` once what it stands for was done, well or not (`ok`).
pub fn apply_step(phase: ApplyPhase, ok: bool, iface: &str, lease: &Lease) -> (r: (
    ApplyPhase,
    ApplyAction,
))
    ensures
        (r.0, r.1@) == apply_next(phase, ok, iface@, lease@),
{
    match phase {
        ApplyPhase::Start => (ApplyPhase::Flushing, ApplyAction::Run(flush_args(iface))),
        ApplyPhase::Flushing => {
            (ApplyPhase::Adding, ApplyAction::Run(add_address_args(iface, lease)))
        },
        ApplyPhase::Adding => if ok {
            (ApplyPhase::Raising, ApplyAction::Run(bring_up_args(iface)))
        } else {
            (ApplyPhase::End, ApplyAction::Fail)
        },
        ApplyPhase::Raising => if !ok {
            (ApplyPhase::End, ApplyAction::Fail)
        } else if lease.routers.len() > 0 {
            (
                ApplyPhase::Replacing,
                ApplyAction::Run(add_route("replace", lease.routers[0], iface)),
            )
        } else {
            (ApplyPhase::Naming, ApplyAction::Resolve(resolver_file(&lease.dns)))
        },
        ApplyPhase::Replacing => if ok {
            (ApplyPhase::Naming, ApplyAction::Resolve(resolver_file(&lease.dns)))
        } else {
            (ApplyPhase::Deleting, ApplyAction::RunQuiet(delete_route_args()))
        },
        ApplyPhase::Deleting => if lease.routers.len() > 0 {
            (ApplyPhase::Routing, ApplyAction::Run(add_route("add", lease.routers[0], iface)))
        } else {
            (ApplyPhase::Naming, ApplyAction::Resolve(resolver_file(&lease.dns)))
        },
        ApplyPhase::Routing => if ok {
            (ApplyPhase::Naming, ApplyAction::Resolve(resolver_file(&lease.dns)))
        } else {
            (ApplyPhase::End, ApplyAction::Fail)
        },
        ApplyPhase::Naming => if ok {
            (ApplyPhase::End, ApplyAction::Done)
        } else {
            (ApplyPhase::End, ApplyAction::Fail)
        },
        ApplyPhase::End => (ApplyPhase::End, ApplyAction::Idle),
    }
}

/// What a hook script finds in its environment, as names and values.
pub open spec fn script_variables(
    iface: Seq<char>,
    lease: LeaseView,
) -> Seq<(Seq<char>, Seq<char>)> {
    seq![
        ("interface"@, iface),
        ("ip"@, dotted(lease.ip)),
        ("subnet"@, dotted(Ipv4Addr { bits: mask_bits(lease.prefix as nat) as u32 })),
        ("mask"@, decimal(lease.prefix as nat)),
        ("router"@, spaced(lease.routers)),
        ("dns"@, spaced(lease.dns)),
    ]
}

/// What a hook script finds in its environment, as names and values.
pub fn script_env(iface: &str, lease: &Lease) -> (r: Vec<(&'static str, String)>)
    ensures
        r@.map_values(|v: (&'static str, String)| (v.0@, v.1@)) == script_variables(iface@, lease@),
{
    let r: Vec<(&'static str, String)> = vec![
        ("interface", iface.to_owned()),
        ("ip", dotted_text(lease.ip)),
        ("subnet", prefix_to_dotted(lease.prefix)),
        ("mask", decimal_text(lease.prefix as u64)),
        ("router", spaced_text(&lease.routers)),
        ("dns", spaced_text(&lease.dns)),
    ];
    proof {
        assert(r@.map_values(|v: (&'static str, String)| (v.0@, v.1@)) =~= script_variables(
            iface@,
            lease@,
        ));
    }
    r
}

/// The arguments that a hook script is called with.
pub fn script_args() -> (r: Vec<String>)
    ensures
        argument_texts(r@) == seq!["bound"@],
{
    let r: Vec<String> = owned(&["bound"]);
    proof {
        assert(argument_texts(r@) =~= seq!["bound"@]);
    }
    r
}

/// The words for a run of a hook script that has failed.
pub fn script_failure_text(script: &str) -> (r: String)
    ensures
        r@ == "script "@ + script@ + " failed"@,
{
    let mut out: String = "script ".to_owned();
    out.append(script);
    out.append(" failed");
    out
}

/// Where everything succeeds, the old addresses go, the new one comes, the interface comes up, the
/// default route goes by way of the first router, where there is one, and the name servers are
/// written down, in this order.
pub proof fn law_apply_in_order(iface: Seq<char>, lease: LeaseView)
    ensures
        ({
            let (p1, a1) = apply_next(ApplyPhase::Start, true, iface, lease);
            let (p2, a2) = apply_next(p1, true, iface, lease);
            let (p3, a3) = apply_next(p2, true, iface, lease);
            let (p4, a4) = apply_next(p3, true, iface, lease);
            let (p5, a5) = apply_next(p4, true, iface, lease);
            let (p6, a6) = apply_next(p5, true, iface, lease);
            &&& a1 == ApplyActionView::Run(flush(iface))
            &&& a2 == ApplyActionView::Run(add_address(iface, lease))
            &&& a3 == ApplyActionView::Run(bring_up(iface))
            &&& if lease.routers.len() > 0 {
                &&& a4 == ApplyActionView::Run(route("replace"@, lease.routers[0], iface))
                &&& a5 == ApplyActionView::Resolve(resolver_text(lease.dns))
                &&& a6 is Done
            } else {
                &&& a4 == ApplyActionView::Resolve(resolver_text(lease.dns))
                &&& a5 is Done
            }
        }),
{
}

/// Where the default route cannot be replaced, the old one is deleted and the new one added,
/// whether there was an old one or not.
pub proof fn law_route_falls_back(iface: Seq<char>, lease: LeaseView, deleted: bool)
    requires
        lease.routers.len() > 0,
    ensures
        ({
            let (p1, a1) = apply_next(ApplyPhase::Replacing, false, iface, lease);
            let (p2, a2) = apply_next(p1, deleted, iface, lease);
            let (p3, a3) = apply_next(p2, true, iface, lease);
            &&& a1 == ApplyActionView::RunQuiet(delete_route())
            &&& a2 == ApplyActionView::Run(route("add"@, lease.routers[0], iface))
            &&& a3 == ApplyActionView::Resolve(resolver_text(lease.dns))
        }),
{
}

/// The lease is in effect only once the name servers were written down.
pub proof fn law_done_is_last(phase: ApplyPhase, ok: bool, iface: Seq<char>, lease: LeaseView)
    requires
        apply_next(phase, ok, iface, lease).1 is Done,
    ensures
        phase is Naming && ok,
{
}

/// The words with a space between any two.
pub open spec fn joined(words: Seq<Seq<char>>) -> Seq<char>
    decreases words.len(),
{
    if words.len() == 0 {
        Seq::empty()
    } else if words.len() == 1 {
        words[0]
    } else {
        joined(words.drop_last()).push(' ') + words.last()
    }
}

/// The words for a run of `program` with `args` that has failed.
pub fn failure_text(program: &str, args: &Vec<String>) -> (r: String)
    ensures
        r@ == program@.push(' ') + joined(argument_texts(args@)) + " failed"@,
{
    let mut out: String = program.to_owned();
    out.push(' ');
    let ghost start = out@;
    let ghost all = argument_texts(args@);
    let mut i: usize = 0;
    proof {
        assert(out@ =~= start + joined(all.take(0)));
    }
    while i < args.len()
        invariant
            i <= args.len(),
            all == argument_texts(args@),
            out@ == start + joined(all.take(i as int)),
        decreases args.len() - i,
    {
        proof {
            assert(all.take(i + 1).drop_last() =~= all.take(i as int));
            assert(all.take(i + 1).last() == args@[i as int]@);
        }
        if i > 0 {
            out.push(' ');
        }
        out.append(args[i].as_str());
        proof {
            assert(out@ =~= start + joined(all.take(i + 1)));
        }
        i += 1;
    }
    proof {
        assert(all.take(all.len() as int) =~= all);
    }
    out.append(" failed");
    out
}

/// Each command names the interface, the address with its prefix, and the gateway that it is about.
pub proof fn law_commands(iface: Seq<char>, lease: LeaseView, how: Seq<char>, gateway: Ipv4Addr)
    ensures
        flush(iface) == seq!["addr"@, "flush"@, "dev"@, iface],
        add_address(iface, lease) == seq![
            "addr"@,
            "add"@,
            dotted(lease.ip) + seq!['/'] + decimal(lease.prefix as nat),
            "dev"@,
            iface,
        ],
        bring_up(iface) == seq!["link"@, "set"@, iface, "up"@],
        route(how, gateway, iface) == seq![
            "route"@,
            how,
            "default"@,
            "via"@,
            dotted(gateway),
            "dev"@,
            iface,
        ],
        delete_route() == seq!["route"@, "del"@, "default"@],
{
    assert(dotted(lease.ip).push('/') + decimal(lease.prefix as nat) =~= dotted(lease.ip) + seq!['/']
        + decimal(lease.prefix as nat));
}

/// The resolver's file has a line for each name server, in their order, and no other line.
pub proof fn law_resolver_lists_every_server(dns: Seq<Ipv4Addr>, i: int)
    ensures
        ({
            let lines = pieces(resolver_text(dns), '\n');
            &&& lines.len() == dns.len() + 1
            &&& lines.last().len() == 0
            &&& 0 <= i < dns.len() ==> lines[i] == "nameserver "@ + dotted(dns[i])
        }),
    decreases dns.len(),
{
    let none = Seq::<char>::empty();
    assert(!none.contains('\n'));
    lemma_pieces_single(none, '\n');
    if dns.len() == 0 {
        assert(resolver_text(dns) =~= none);
    } else {
        let before = dns.drop_last();
        let line = "nameserver "@ + dotted(dns.last());
        let text = resolver_text(before);
        law_resolver_lists_every_server(before, i);
        reveal_strlit("nameserver ");
        lemma_dotted_chars(dns.last());
        assert forall|k: int| 0 <= k < line.len() implies line[k] != '\n' by {
            if k >= 11 {
                assert(line[k] == dotted(dns.last())[k - 11]);
            }
        }
        lemma_pieces_single(line, '\n');
        lemma_behind_line_feed(before, line);
        lemma_pieces_join(text + line, '\n', none);
        assert(resolver_text(dns) =~= (text + line).push('\n') + none);
    }
}

proof fn lemma_behind_line_feed(before: Seq<Ipv4Addr>, line: Seq<char>)
    requires
        !line.contains('\n'),
    ensures
        pieces(resolver_text(before) + line, '\n') == pieces(
            resolver_text(before),
            '\n',
        ).drop_last().push(line),
{
    let text = resolver_text(before);
    let none = Seq::<char>::empty();
    assert(!none.contains('\n'));
    lemma_pieces_single(none, '\n');
    lemma_pieces_single(line, '\n');
    if before.len() == 0 {
        assert(text + line =~= line);
        assert(text =~= none);
        assert(pieces(none, '\n').drop_last().push(line) =~= seq![line]);
    } else {
        let head = resolver_text(before.drop_last()) + ("nameserver "@ + dotted(before.last()));
        assert(text =~= head.push('\n') + none);
        assert(text + line =~= head.push('\n') + line);
        lemma_pieces_join(head, '\n', none);
        lemma_pieces_join(head, '\n', line);
        assert((pieces(head, '\n') + seq![none]).drop_last().push(line) =~= pieces(head, '\n')
            + seq![line]);
    }
}

/// What fails where it matters ends the work with the failure: adding the address, bringing the
/// interface up, adding the route, writing the name servers. What fails elsewhere changes at most the
/// way to the route.
pub proof fn law_failures_that_matter(phase: ApplyPhase, iface: Seq<char>, lease: LeaseView)
    ensures
        ({
            let (next, action) = apply_next(phase, false, iface, lease);
            match phase {
                ApplyPhase::Start => (next, action) == apply_next(phase, true, iface, lease),
                ApplyPhase::Flushing => (next, action) == apply_next(phase, true, iface, lease),
                ApplyPhase::Deleting => (next, action) == apply_next(phase, true, iface, lease),
                ApplyPhase::Replacing => next is Deleting && action
                    == ApplyActionView::RunQuiet(delete_route()),
                ApplyPhase::End => next is End && action is Idle,
                _ => next is End && action is Fail,
            }
        }),
        forall|ok: bool|
            (#[trigger] apply_next(phase, ok, iface, lease)).1 is Fail ==> !ok,
{
}

/// A hook script finds the interface, the address, the mask in both notations, and all routers and
/// name servers, each under its name.
pub proof fn law_script_variables(iface: Seq<char>, lease: LeaseView)
    ensures
        ({
            let v = script_variables(iface, lease);
            &&& v.len() == 6
            &&& v[0] == ("interface"@, iface)
            &&& v[1] == ("ip"@, dotted(lease.ip))
            &&& v[2].0 == "subnet"@ && address_value(v[2].1) == Some(
                Ipv4Addr { bits: mask_bits(lease.prefix as nat) as u32 },
            )
            &&& v[3].0 == "mask"@ && number_value(v[3].1, 10, 255) == Ok::<nat, NumberError>(
                lease.prefix as nat,
            )
            &&& v[4].0 == "router"@ && addresses_among(words(v[4].1)) == lease.routers
            &&& v[5].0 == "dns"@ && addresses_among(words(v[5].1)) == lease.dns
        }),
{
    lemma_dotted_reads_back(Ipv4Addr { bits: mask_bits(lease.prefix as nat) as u32 });
    lemma_decimal_reads_back(lease.prefix as nat, 255);
    lemma_spaced_reads_back(lease.routers);
    lemma_spaced_reads_back(lease.dns);
}

/// Words are joined by one space each.
pub proof fn law_joined(words: Seq<Seq<char>>, w: Seq<char>)
    ensures
        joined(Seq::empty()).len() == 0,
        joined(seq![w]) == w,
        words.len() > 0 ==> joined(words.push(w)) == joined(words).push(' ') + w,
{
    assert(words.push(w).drop_last() =~= words);
}

/// The views of what there is to do leave nothing out.
pub proof fn law_apply_action_views(args: Vec<String>, text: String)
    ensures
        ApplyAction::Run(args)@ == ApplyActionView::Run(argument_texts(args@)),
        ApplyAction::RunQuiet(args)@ == ApplyActionView::RunQuiet(argument_texts(args@)),
        ApplyAction::Resolve(text)@ == ApplyActionView::Resolve(text@),
        ApplyAction::Done@ == ApplyActionView::Done,
        ApplyAction::Fail@ == ApplyActionView::Fail,
        ApplyAction::Idle@ == ApplyActionView::Idle,
{
}

/// What a step that went well leads to: the address is flushed, then added, the interface raised,
/// the default route set by way of the first router where there is one, and the resolver written
/// last.
pub proof fn law_steps_that_went_well(iface: Seq<char>, lease: LeaseView)
    ensures
        ({
            let after = |phase: ApplyPhase| apply_next(phase, true, iface, lease);
            let name = (ApplyPhase::Naming, ApplyActionView::Resolve(resolver_text(lease.dns)));
            &&& after(ApplyPhase::Start) == (
                ApplyPhase::Flushing,
                ApplyActionView::Run(flush(iface)),
            )
            &&& after(ApplyPhase::Flushing) == (
                ApplyPhase::Adding,
                ApplyActionView::Run(add_address(iface, lease)),
            )
            &&& after(ApplyPhase::Adding) == (
                ApplyPhase::Raising,
                ApplyActionView::Run(bring_up(iface)),
            )
            &&& lease.routers.len() > 0 ==> after(ApplyPhase::Raising) == (
                ApplyPhase::Replacing,
                ApplyActionView::Run(route("replace"@, lease.routers[0], iface)),
            )
            &&& lease.routers.len() > 0 ==> after(ApplyPhase::Deleting) == (
                ApplyPhase::Routing,
                ApplyActionView::Run(route("add"@, lease.routers[0], iface)),
            )
            &&& lease.routers.len() == 0 ==> after(ApplyPhase::Raising) == name
            &&& lease.routers.len() == 0 ==> after(ApplyPhase::Deleting) == name
            &&& after(ApplyPhase::Replacing) == name
            &&& after(ApplyPhase::Routing) == name
            &&& after(ApplyPhase::Naming) == (ApplyPhase::End, ApplyActionView::Done)
            &&& after(ApplyPhase::End) == (ApplyPhase::End, ApplyActionView::Idle)
        }),
{
}

} // verus!
