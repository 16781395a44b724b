use vstd::prelude::*;

use crate::graph::{
    control::{Export, GammaIn, GammaOut, Import, LambdaIn, LambdaOut, OmegaIn, OmegaOut, RegionIn, RegionOut, ThetaIn, ThetaOut},
    link::Link,
    simple::{Apply, Fence, GlobalGet, GlobalNew, GlobalSet, Identity, IntegerBinaryOperation, IntegerCompareOperation, IntegerConvertToNumber, IntegerExtend, IntegerNarrow, IntegerTransmuteToNumber, IntegerUnaryOperation, IntegerWiden, Location, MemoryCopy, MemoryDrop, MemoryFill, MemoryGrow, MemoryLoad, MemoryNew, MemorySize, MemoryStore, NumberBinaryOperation, NumberCompareOperation, NumberNarrow, NumberTransmuteToInteger, NumberTruncateToInteger, NumberUnaryOperation, NumberWiden, RefIsNull, TableCopy, TableDrop, TableFill, TableGet, TableGrow, TableNew, TableSet, TableSize},
    sequences::{export_identifiers, export_references, link_ids, link_ports, push_export_ids, push_export_links, push_ids, push_link_ids, push_links, push_table_ids, push_table_links, set_export_ids, set_export_links, set_ids, set_link_ids, set_links, set_table_ids, set_table_links, table_links, table_offsets},
};

verus! {

impl Location {
    /// The argument links of a location: its base reference, then its offset.
    pub open spec fn arguments(&self) -> Seq<Link> {
        seq![self.reference, self.offset]
    }

    /// The node identifiers of a location's links.
    pub open spec fn ids(&self) -> Seq<u32> {
        seq![self.reference.0, self.offset.0]
    }
}

impl LambdaIn {
    /// The argument links this node reads, in visiting order.
    pub open spec fn arguments(&self) -> Seq<Link> {
        self.dependencies@
    }

    /// The node identifiers this node mentions, in visiting order.
    pub open spec fn ids(&self) -> Seq<u32> {
        seq![self.output] + link_ids(self.dependencies@)
    }

    /// Whether `other` agrees with this node on everything but its argument links.
    pub open spec fn same_except_arguments(&self, other: &Self) -> bool {
        &&& self.output == other.output
        &&& self.kind == other.kind
        &&& self.dependencies@.len() == other.dependencies@.len()
        &&& self.key == other.key
    }

    /// Appends each argument link to `out`, in visiting order.
    pub fn for_each_argument(&self, out: &mut Vec<Link>)
        ensures
            final(out)@ == old(out)@ + self.arguments(),
    {
        let ghost start = out@;
        push_links(out, &self.dependencies);
        assert(out@ =~= start + self.dependencies@);
    }

    /// Appends each node identifier this node mentions to `out`, in visiting order.
    pub fn for_each_id(&self, out: &mut Vec<u32>)
        ensures
            final(out)@ == old(out)@ + self.ids(),
    {
        let ghost start = out@;
        out.push(self.output);
        assert(out@ =~= start + seq![self.output]);
        push_link_ids(out, &self.dependencies);
        assert(out@ =~= start + seq![self.output] + link_ids(self.dependencies@));
    }

    /// Replaces the argument links, in visiting order, with `new`.
    pub fn for_each_mut_argument(&mut self, new: &[Link])
        requires
            new@.len() == old(self).arguments().len(),
        ensures
            final(self).arguments() == new@,
            old(self).same_except_arguments(&*final(self)),
    {
        let mut k: usize = 0;
        set_links(&mut self.dependencies, new, k);
        k = k + self.dependencies.len();
        assert(new@.subrange(0, k as int) =~= self.dependencies@);
        assert(new@.subrange(0, new@.len() as int) =~= new@);
    }

    /// Whether `other` agrees with this node on everything but the nodes it mentions.
    pub open spec fn same_except_ids(&self, other: &Self) -> bool {
        &&& self.kind == other.kind
        &&& link_ports(self.dependencies@) == link_ports(other.dependencies@)
        &&& self.key == other.key
    }

    /// Replaces the node identifiers, in visiting order, with `new`.
    pub fn for_each_mut_id(&mut self, new: &[u32])
        requires
            new@.len() == old(self).ids().len(),
        ensures
            final(self).ids() == new@,
            old(self).same_except_ids(&*final(self)),
    {
        let mut k: usize = 0;
        self.output = new[k];
        k = k + 1;
        assert(new@.subrange(0, k as int) =~= seq![self.output]);
        set_link_ids(&mut self.dependencies, new, k);
        k = k + self.dependencies.len();
        assert(new@.subrange(0, k as int) =~= seq![self.output] + link_ids(self.dependencies@));
        assert(new@.subrange(0, new@.len() as int) =~= new@);
    }
}

impl LambdaOut {
    /// The argument links this node reads, in visiting order.
    pub open spec fn arguments(&self) -> Seq<Link> {
        self.results@
    }

    /// The node identifiers this node mentions, in visiting order.
    pub open spec fn ids(&self) -> Seq<u32> {
        seq![self.input] + link_ids(self.results@)
    }

    /// The nodes this node structurally depends on, in visiting order.
    pub open spec fn requirements(&self) -> Seq<u32> {
        seq![self.input]
    }

    /// Whether `other` agrees with this node on everything but its argument links.
    pub open spec fn same_except_arguments(&self, other: &Self) -> bool {
        &&& self.input == other.input
        &&& self.results@.len() == other.results@.len()
    }

    /// Appends each argument link to `out`, in visiting order.
    pub fn for_each_argument(&self, out: &mut Vec<Link>)
        ensures
            final(out)@ == old(out)@ + self.arguments(),
    {
        let ghost start = out@;
        push_links(out, &self.results);
        assert(out@ =~= start + self.results@);
    }

    /// Appends each node identifier this node mentions to `out`, in visiting order.
    pub fn for_each_id(&self, out: &mut Vec<u32>)
        ensures
            final(out)@ == old(out)@ + self.ids(),
    {
        let ghost start = out@;
        out.push(self.input);
        assert(out@ =~= start + seq![self.input]);
        push_link_ids(out, &self.results);
        assert(out@ =~= start + seq![self.input] + link_ids(self.results@));
    }

    /// Appends each structural requirement to `out`, in visiting order.
    pub fn for_each_requirement(&self, out: &mut Vec<u32>)
        ensures
            final(out)@ == old(out)@ + self.requirements(),
    {
        let ghost start = out@;
        out.push(self.input);
        assert(out@ =~= start + seq![self.input]);
    }

    /// Replaces the argument links, in visiting order, with `new`.
    pub fn for_each_mut_argument(&mut self, new: &[Link])
        requires
            new@.len() == old(self).arguments().len(),
        ensures
            final(self).arguments() == new@,
            old(self).same_except_arguments(&*final(self)),
    {
        let mut k: usize = 0;
        set_links(&mut self.results, new, k);
        k = k + self.results.len();
        assert(new@.subrange(0, k as int) =~= self.results@);
        assert(new@.subrange(0, new@.len() as int) =~= new@);
    }

    /// Whether `other` agrees with this node on everything but the nodes it mentions.
    pub open spec fn same_except_ids(&self, other: &Self) -> bool {
        &&& link_ports(self.results@) == link_ports(other.results@)
    }

    /// Replaces the node identifiers, in visiting order, with `new`.
    pub fn for_each_mut_id(&mut self, new: &[u32])
        requires
            new@.len() == old(self).ids().len(),
        ensures
            final(self).ids() == new@,
            old(self).same_except_ids(&*final(self)),
    {
        let mut k: usize = 0;
        self.input = new[k];
        k = k + 1;
        assert(new@.subrange(0, k as int) =~= seq![self.input]);
        set_link_ids(&mut self.results, new, k);
        k = k + self.results.len();
        assert(new@.subrange(0, k as int) =~= seq![self.input] + link_ids(self.results@));
        assert(new@.subrange(0, new@.len() as int) =~= new@);
    }
}

impl RegionIn {
    /// The argument links this node reads, in visiting order.
    pub open spec fn arguments(&self) -> Seq<Link> {
        Seq::empty()
    }

    /// The node identifiers this node mentions, in visiting order.
    pub open spec fn ids(&self) -> Seq<u32> {
        seq![self.input] + seq![self.output]
    }

    /// The nodes this node structurally depends on, in visiting order.
    pub open spec fn requirements(&self) -> Seq<u32> {
        seq![self.input]
    }

    /// Whether `other` agrees with this node on everything but its argument links.
    pub open spec fn same_except_arguments(&self, other: &Self) -> bool {
        &&& self.input == other.input
        &&& self.output == other.output
    }

    /// Appends each argument link to `out`, in visiting order.
    pub fn for_each_argument(&self, out: &mut Vec<Link>)
        ensures
            final(out)@ == old(out)@ + self.arguments(),
    {
        let ghost start = out@;
    }

    /// Appends each node identifier this node mentions to `out`, in visiting order.
    pub fn for_each_id(&self, out: &mut Vec<u32>)
        ensures
            final(out)@ == old(out)@ + self.ids(),
    {
        let ghost start = out@;
        out.push(self.input);
        assert(out@ =~= start + seq![self.input]);
        out.push(self.output);
        assert(out@ =~= start + seq![self.input] + seq![self.output]);
    }

    /// Appends each structural requirement to `out`, in visiting order.
    pub fn for_each_requirement(&self, out: &mut Vec<u32>)
        ensures
            final(out)@ == old(out)@ + self.requirements(),
    {
        let ghost start = out@;
        out.push(self.input);
        assert(out@ =~= start + seq![self.input]);
    }

    /// Replaces the argument links, in visiting order, with `new`.
    pub fn for_each_mut_argument(&mut self, new: &[Link])
        requires
            new@.len() == old(self).arguments().len(),
        ensures
            final(self).arguments() == new@,
            old(self).same_except_arguments(&*final(self)),
    {
    }

    /// Whether `other` agrees with this node on everything but the nodes it mentions.
    pub open spec fn same_except_ids(&self, other: &Self) -> bool {
        true
    }

    /// Replaces the node identifiers, in visiting order, with `new`.
    pub fn for_each_mut_id(&mut self, new: &[u32])
        requires
            new@.len() == old(self).ids().len(),
        ensures
            final(self).ids() == new@,
            old(self).same_except_ids(&*final(self)),
    {
        let mut k: usize = 0;
        self.input = new[k];
        k = k + 1;
        assert(new@.subrange(0, k as int) =~= seq![self.input]);
        self.output = new[k];
        k = k + 1;
        assert(new@.subrange(0, k as int) =~= seq![self.input] + seq![self.output]);
        assert(new@.subrange(0, new@.len() as int) =~= new@);
    }
}

impl RegionOut {
    /// The argument links this node reads, in visiting order.
    pub open spec fn arguments(&self) -> Seq<Link> {
        self.results@
    }

    /// The node identifiers this node mentions, in visiting order.
    pub open spec fn ids(&self) -> Seq<u32> {
        seq![self.input] + seq![self.output] + link_ids(self.results@)
    }

    /// The nodes this node structurally depends on, in visiting order.
    pub open spec fn requirements(&self) -> Seq<u32> {
        seq![self.input]
    }

    /// Whether `other` agrees with this node on everything but its argument links.
    pub open spec fn same_except_arguments(&self, other: &Self) -> bool {
        &&& self.input == other.input
        &&& self.output == other.output
        &&& self.results@.len() == other.results@.len()
    }

    /// Appends each argument link to `out`, in visiting order.
    pub fn for_each_argument(&self, out: &mut Vec<Link>)
        ensures
            final(out)@ == old(out)@ + self.arguments(),
    {
        let ghost start = out@;
        push_links(out, &self.results);
        assert(out@ =~= start + self.results@);
    }

    /// Appends each node identifier this node mentions to `out`, in visiting order.
    pub fn for_each_id(&self, out: &mut Vec<u32>)
        ensures
            final(out)@ == old(out)@ + self.ids(),
    {
        let ghost start = out@;
        out.push(self.input);
        assert(out@ =~= start + seq![self.input]);
        out.push(self.output);
        assert(out@ =~= start + seq![self.input] + seq![self.output]);
        push_link_ids(out, &self.results);
        assert(out@ =~= start + seq![self.input] + seq![self.output] + link_ids(self.results@));
    }

    /// Appends each structural requirement to `out`, in visiting order.
    pub fn for_each_requirement(&self, out: &mut Vec<u32>)
        ensures
            final(out)@ == old(out)@ + self.requirements(),
    {
        let ghost start = out@;
        out.push(self.input);
        assert(out@ =~= start + seq![self.input]);
    }

    /// Replaces the argument links, in visiting order, with `new`.
    pub fn for_each_mut_argument(&mut self, new: &[Link])
        requires
            new@.len() == old(self).arguments().len(),
        ensures
            final(self).arguments() == new@,
            old(self).same_except_arguments(&*final(self)),
    {
        let mut k: usize = 0;
        set_links(&mut self.results, new, k);
        k = k + self.results.len();
        assert(new@.subrange(0, k as int) =~= self.results@);
        assert(new@.subrange(0, new@.len() as int) =~= new@);
    }

    /// Whether `other` agrees with this node on everything but the nodes it mentions.
    pub open spec fn same_except_ids(&self, other: &Self) -> bool {
        &&& link_ports(self.results@) == link_ports(other.results@)
    }

    /// Replaces the node identifiers, in visiting order, with `new`.
    pub fn for_each_mut_id(&mut self, new: &[u32])
        requires
            new@.len() == old(self).ids().len(),
        ensures
            final(self).ids() == new@,
            old(self).same_except_ids(&*final(self)),
    {
        let mut k: usize = 0;
        self.input = new[k];
        k = k + 1;
        assert(new@.subrange(0, k as int) =~= seq![self.input]);
        self.output = new[k];
        k = k + 1;
        assert(new@.subrange(0, k as int) =~= seq![self.input] + seq![self.output]);
        set_link_ids(&mut self.results, new, k);
        k = k + self.results.len();
        assert(new@.subrange(0, k as int) =~= seq![self.input] + seq![self.output] + link_ids(self.results@));
        assert(new@.subrange(0, new@.len() as int) =~= new@);
    }
}

impl GammaIn {
    /// The argument links this node reads, in visiting order.
    pub open spec fn arguments(&self) -> Seq<Link> {
        self.arguments@ + seq![self.condition]
    }

    /// The node identifiers this node mentions, in visiting order.
    pub open spec fn ids(&self) -> Seq<u32> {
        seq![self.output] + link_ids(self.arguments@) + seq![self.condition.0]
    }

    /// Whether `other` agrees with this node on everything but its argument links.
    pub open spec fn same_except_arguments(&self, other: &Self) -> bool {
        &&& self.output == other.output
        &&& self.arguments@.len() == other.arguments@.len()
    }

    /// Appends each argument link to `out`, in visiting order.
    pub fn for_each_argument(&self, out: &mut Vec<Link>)
        ensures
            final(out)@ == old(out)@ + self.arguments(),
    {
        let ghost start = out@;
        push_links(out, &self.arguments);
        assert(out@ =~= start + self.arguments@);
        out.push(self.condition);
        assert(out@ =~= start + self.arguments@ + seq![self.condition]);
    }

    /// Appends each node identifier this node mentions to `out`, in visiting order.
    pub fn for_each_id(&self, out: &mut Vec<u32>)
        ensures
            final(out)@ == old(out)@ + self.ids(),
    {
        let ghost start = out@;
        out.push(self.output);
        assert(out@ =~= start + seq![self.output]);
        push_link_ids(out, &self.arguments);
        assert(out@ =~= start + seq![self.output] + link_ids(self.arguments@));
        out.push(self.condition.0);
        assert(out@ =~= start + seq![self.output] + link_ids(self.arguments@) + seq![self.condition.0]);
    }

    /// Replaces the argument links, in visiting order, with `new`.
    pub fn for_each_mut_argument(&mut self, new: &[Link])
        requires
            new@.len() == old(self).arguments().len(),
        ensures
            final(self).arguments() == new@,
            old(self).same_except_arguments(&*final(self)),
    {
        let mut k: usize = 0;
        set_links(&mut self.arguments, new, k);
        k = k + self.arguments.len();
        assert(new@.subrange(0, k as int) =~= self.arguments@);
        self.condition = new[k];
        k = k + 1;
        assert(new@.subrange(0, k as int) =~= self.arguments@ + seq![self.condition]);
        assert(new@.subrange(0, new@.len() as int) =~= new@);
    }

    /// Whether `other` agrees with this node on everything but the nodes it mentions.
    pub open spec fn same_except_ids(&self, other: &Self) -> bool {
        &&& link_ports(self.arguments@) == link_ports(other.arguments@)
        &&& self.condition.1 == other.condition.1
    }

    /// Replaces the node identifiers, in visiting order, with `new`.
    pub fn for_each_mut_id(&mut self, new: &[u32])
        requires
            new@.len() == old(self).ids().len(),
        ensures
            final(self).ids() == new@,
            old(self).same_except_ids(&*final(self)),
    {
        let mut k: usize = 0;
        self.output = new[k];
        k = k + 1;
        assert(new@.subrange(0, k as int) =~= seq![self.output]);
        set_link_ids(&mut self.arguments, new, k);
        k = k + self.arguments.len();
        assert(new@.subrange(0, k as int) =~= seq![self.output] + link_ids(self.arguments@));
        self.condition = Link(new[k], self.condition.1);
        k = k + 1;
        assert(new@.subrange(0, k as int) =~= seq![self.output] + link_ids(self.arguments@) + seq![self.condition.0]);
        assert(new@.subrange(0, new@.len() as int) =~= new@);
    }
}

impl GammaOut {
    /// The argument links this node reads, in visiting order.
    pub open spec fn arguments(&self) -> Seq<Link> {
        Seq::empty()
    }

    /// The node identifiers this node mentions, in visiting order.
    pub open spec fn ids(&self) -> Seq<u32> {
        seq![self.input] + self.regions@
    }

    /// The nodes this node structurally depends on, in visiting order.
    pub open spec fn requirements(&self) -> Seq<u32> {
        seq![self.input] + self.regions@
    }

    /// Whether `other` agrees with this node on everything but its argument links.
    pub open spec fn same_except_arguments(&self, other: &Self) -> bool {
        &&& self.input == other.input
        &&& self.regions == other.regions
    }

    /// Appends each argument link to `out`, in visiting order.
    pub fn for_each_argument(&self, out: &mut Vec<Link>)
        ensures
            final(out)@ == old(out)@ + self.arguments(),
    {
        let ghost start = out@;
    }

    /// Appends each node identifier this node mentions to `out`, in visiting order.
    pub fn for_each_id(&self, out: &mut Vec<u32>)
        ensures
            final(out)@ == old(out)@ + self.ids(),
    {
        let ghost start = out@;
        out.push(self.input);
        assert(out@ =~= start + seq![self.input]);
        push_ids(out, &self.regions);
        assert(out@ =~= start + seq![self.input] + self.regions@);
    }

    /// Appends each structural requirement to `out`, in visiting order.
    pub fn for_each_requirement(&self, out: &mut Vec<u32>)
        ensures
            final(out)@ == old(out)@ + self.requirements(),
    {
        let ghost start = out@;
        out.push(self.input);
        assert(out@ =~= start + seq![self.input]);
        push_ids(out, &self.regions);
        assert(out@ =~= start + seq![self.input] + self.regions@);
    }

    /// Replaces the argument links, in visiting order, with `new`.
    pub fn for_each_mut_argument(&mut self, new: &[Link])
        requires
            new@.len() == old(self).arguments().len(),
        ensures
            final(self).arguments() == new@,
            old(self).same_except_arguments(&*final(self)),
    {
    }

    /// Whether `other` agrees with this node on everything but the nodes it mentions.
    pub open spec fn same_except_ids(&self, other: &Self) -> bool {
        &&& self.regions@.len() == other.regions@.len()
    }

    /// Replaces the node identifiers, in visiting order, with `new`.
    pub fn for_each_mut_id(&mut self, new: &[u32])
        requires
            new@.len() == old(self).ids().len(),
        ensures
            final(self).ids() == new@,
            old(self).same_except_ids(&*final(self)),
    {
        let mut k: usize = 0;
        self.input = new[k];
        k = k + 1;
        assert(new@.subrange(0, k as int) =~= seq![self.input]);
        set_ids(&mut self.regions, new, k);
        k = k + self.regions.len();
        assert(new@.subrange(0, k as int) =~= seq![self.input] + self.regions@);
        assert(new@.subrange(0, new@.len() as int) =~= new@);
    }
}

impl ThetaIn {
    /// The argument links this node reads, in visiting order.
    pub open spec fn arguments(&self) -> Seq<Link> {
        self.arguments@
    }

    /// The node identifiers this node mentions, in visiting order.
    pub open spec fn ids(&self) -> Seq<u32> {
        seq![self.output] + link_ids(self.arguments@)
    }

    /// Whether `other` agrees with this node on everything but its argument links.
    pub open spec fn same_except_arguments(&self, other: &Self) -> bool {
        &&& self.output == other.output
        &&& self.arguments@.len() == other.arguments@.len()
    }

    /// Appends each argument link to `out`, in visiting order.
    pub fn for_each_argument(&self, out: &mut Vec<Link>)
        ensures
            final(out)@ == old(out)@ + self.arguments(),
    {
        let ghost start = out@;
        push_links(out, &self.arguments);
        assert(out@ =~= start + self.arguments@);
    }

    /// Appends each node identifier this node mentions to `out`, in visiting order.
    pub fn for_each_id(&self, out: &mut Vec<u32>)
        ensures
            final(out)@ == old(out)@ + self.ids(),
    {
        let ghost start = out@;
        out.push(self.output);
        assert(out@ =~= start + seq![self.output]);
        push_link_ids(out, &self.arguments);
        assert(out@ =~= start + seq![self.output] + link_ids(self.arguments@));
    }

    /// Replaces the argument links, in visiting order, with `new`.
    pub fn for_each_mut_argument(&mut self, new: &[Link])
        requires
            new@.len() == old(self).arguments().len(),
        ensures
            final(self).arguments() == new@,
            old(self).same_except_arguments(&*final(self)),
    {
        let mut k: usize = 0;
        set_links(&mut self.arguments, new, k);
        k = k + self.arguments.len();
        assert(new@.subrange(0, k as int) =~= self.arguments@);
        assert(new@.subrange(0, new@.len() as int) =~= new@);
    }

    /// Whether `other` agrees with this node on everything but the nodes it mentions.
    pub open spec fn same_except_ids(&self, other: &Self) -> bool {
        &&& link_ports(self.arguments@) == link_ports(other.arguments@)
    }

    /// Replaces the node identifiers, in visiting order, with `new`.
    pub fn for_each_mut_id(&mut self, new: &[u32])
        requires
            new@.len() == old(self).ids().len(),
        ensures
            final(self).ids() == new@,
            old(self).same_except_ids(&*final(self)),
    {
        let mut k: usize = 0;
        self.output = new[k];
        k = k + 1;
        assert(new@.subrange(0, k as int) =~= seq![self.output]);
        set_link_ids(&mut self.arguments, new, k);
        k = k + self.arguments.len();
        assert(new@.subrange(0, k as int) =~= seq![self.output] + link_ids(self.arguments@));
        assert(new@.subrange(0, new@.len() as int) =~= new@);
    }
}

impl ThetaOut {
    /// The argument links this node reads, in visiting order.
    pub open spec fn arguments(&self) -> Seq<Link> {
        self.results@ + seq![self.condition]
    }

    /// The node identifiers this node mentions, in visiting order.
    pub open spec fn ids(&self) -> Seq<u32> {
        seq![self.input] + link_ids(self.results@) + seq![self.condition.0]
    }

    /// The nodes this node structurally depends on, in visiting order.
    pub open spec fn requirements(&self) -> Seq<u32> {
        seq![self.input]
    }

    /// Whether `other` agrees with this node on everything but its argument links.
    pub open spec fn same_except_arguments(&self, other: &Self) -> bool {
        &&& self.input == other.input
        &&& self.results@.len() == other.results@.len()
    }

    /// Appends each argument link to `out`, in visiting order.
    pub fn for_each_argument(&self, out: &mut Vec<Link>)
        ensures
            final(out)@ == old(out)@ + self.arguments(),
    {
        let ghost start = out@;
        push_links(out, &self.results);
        assert(out@ =~= start + self.results@);
        out.push(self.condition);
        assert(out@ =~= start + self.results@ + seq![self.condition]);
    }

    /// Appends each node identifier this node mentions to `out`, in visiting order.
    pub fn for_each_id(&self, out: &mut Vec<u32>)
        ensures
            final(out)@ == old(out)@ + self.ids(),
    {
        let ghost start = out@;
        out.push(self.input);
        assert(out@ =~= start + seq![self.input]);
        push_link_ids(out, &self.results);
        assert(out@ =~= start + seq![self.input] + link_ids(self.results@));
        out.push(self.condition.0);
        assert(out@ =~= start + seq![self.input] + link_ids(self.results@) + seq![self.condition.0]);
    }

    /// Appends each structural requirement to `out`, in visiting order.
    pub fn for_each_requirement(&self, out: &mut Vec<u32>)
        ensures
            final(out)@ == old(out)@ + self.requirements(),
    {
        let ghost start = out@;
        out.push(self.input);
        assert(out@ =~= start + seq![self.input]);
    }

    /// Replaces the argument links, in visiting order, with `new`.
    pub fn for_each_mut_argument(&mut self, new: &[Link])
        requires
            new@.len() == old(self).arguments().len(),
        ensures
            final(self).arguments() == new@,
            old(self).same_except_arguments(&*final(self)),
    {
        let mut k: usize = 0;
        set_links(&mut self.results, new, k);
        k = k + self.results.len();
        assert(new@.subrange(0, k as int) =~= self.results@);
        self.condition = new[k];
        k = k + 1;
        assert(new@.subrange(0, k as int) =~= self.results@ + seq![self.condition]);
        assert(new@.subrange(0, new@.len() as int) =~= new@);
    }

    /// Whether `other` agrees with this node on everything but the nodes it mentions.
    pub open spec fn same_except_ids(&self, other: &Self) -> bool {
        &&& link_ports(self.results@) == link_ports(other.results@)
        &&& self.condition.1 == other.condition.1
    }

    /// Replaces the node identifiers, in visiting order, with `new`.
    pub fn for_each_mut_id(&mut self, new: &[u32])
        requires
            new@.len() == old(self).ids().len(),
        ensures
            final(self).ids() == new@,
            old(self).same_except_ids(&*final(self)),
    {
        let mut k: usize = 0;
        self.input = new[k];
        k = k + 1;
        assert(new@.subrange(0, k as int) =~= seq![self.input]);
        set_link_ids(&mut self.results, new, k);
        k = k + self.results.len();
        assert(new@.subrange(0, k as int) =~= seq![self.input] + link_ids(self.results@));
        self.condition = Link(new[k], self.condition.1);
        k = k + 1;
        assert(new@.subrange(0, k as int) =~= seq![self.input] + link_ids(self.results@) + seq![self.condition.0]);
        assert(new@.subrange(0, new@.len() as int) =~= new@);
    }
}

impl Import {
    /// The argument links this node reads, in visiting order.
    pub open spec fn arguments(&self) -> Seq<Link> {
        seq![self.environment]
    }

    /// The node identifiers this node mentions, in visiting order.
    pub open spec fn ids(&self) -> Seq<u32> {
        seq![self.environment.0]
    }

    /// Whether `other` agrees with this node on everything but its argument links.
    pub open spec fn same_except_arguments(&self, other: &Self) -> bool {
        &&& self.namespace == other.namespace
        &&& self.identifier == other.identifier
    }

    /// Appends each argument link to `out`, in visiting order.
    pub fn for_each_argument(&self, out: &mut Vec<Link>)
        ensures
            final(out)@ == old(out)@ + self.arguments(),
    {
        let ghost start = out@;
        out.push(self.environment);
        assert(out@ =~= start + seq![self.environment]);
    }

    /// Appends each node identifier this node mentions to `out`, in visiting order.
    pub fn for_each_id(&self, out: &mut Vec<u32>)
        ensures
            final(out)@ == old(out)@ + self.ids(),
    {
        let ghost start = out@;
        out.push(self.environment.0);
        assert(out@ =~= start + seq![self.environment.0]);
    }

    /// Replaces the argument links, in visiting order, with `new`.
    pub fn for_each_mut_argument(&mut self, new: &[Link])
        requires
            new@.len() == old(self).arguments().len(),
        ensures
            final(self).arguments() == new@,
            old(self).same_except_arguments(&*final(self)),
    {
        let mut k: usize = 0;
        self.environment = new[k];
        k = k + 1;
        assert(new@.subrange(0, k as int) =~= seq![self.environment]);
        assert(new@.subrange(0, new@.len() as int) =~= new@);
    }

    /// Whether `other` agrees with this node on everything but the nodes it mentions.
    pub open spec fn same_except_ids(&self, other: &Self) -> bool {
        &&& self.environment.1 == other.environment.1
        &&& self.namespace == other.namespace
        &&& self.identifier == other.identifier
    }

    /// Replaces the node identifiers, in visiting order, with `new`.
    pub fn for_each_mut_id(&mut self, new: &[u32])
        requires
            new@.len() == old(self).ids().len(),
        ensures
            final(self).ids() == new@,
            old(self).same_except_ids(&*final(self)),
    {
        let mut k: usize = 0;
        self.environment = Link(new[k], self.environment.1);
        k = k + 1;
        assert(new@.subrange(0, k as int) =~= seq![self.environment.0]);
        assert(new@.subrange(0, new@.len() as int) =~= new@);
    }
}

impl OmegaIn {
    /// The argument links this node reads, in visiting order.
    pub open spec fn arguments(&self) -> Seq<Link> {
        Seq::empty()
    }

    /// The node identifiers this node mentions, in visiting order.
    pub open spec fn ids(&self) -> Seq<u32> {
        seq![self.output]
    }

    /// Whether `other` agrees with this node on everything but its argument links.
    pub open spec fn same_except_arguments(&self, other: &Self) -> bool {
        &&& self.output == other.output
    }

    /// Appends each argument link to `out`, in visiting order.
    pub fn for_each_argument(&self, out: &mut Vec<Link>)
        ensures
            final(out)@ == old(out)@ + self.arguments(),
    {
        let ghost start = out@;
    }

    /// Appends each node identifier this node mentions to `out`, in visiting order.
    pub fn for_each_id(&self, out: &mut Vec<u32>)
        ensures
            final(out)@ == old(out)@ + self.ids(),
    {
        let ghost start = out@;
        out.push(self.output);
        assert(out@ =~= start + seq![self.output]);
    }

    /// Replaces the argument links, in visiting order, with `new`.
    pub fn for_each_mut_argument(&mut self, new: &[Link])
        requires
            new@.len() == old(self).arguments().len(),
        ensures
            final(self).arguments() == new@,
            old(self).same_except_arguments(&*final(self)),
    {
    }

    /// Whether `other` agrees with this node on everything but the nodes it mentions.
    pub open spec fn same_except_ids(&self, other: &Self) -> bool {
        true
    }

    /// Replaces the node identifiers, in visiting order, with `new`.
    pub fn for_each_mut_id(&mut self, new: &[u32])
        requires
            new@.len() == old(self).ids().len(),
        ensures
            final(self).ids() == new@,
            old(self).same_except_ids(&*final(self)),
    {
        let mut k: usize = 0;
        self.output = new[k];
        k = k + 1;
        assert(new@.subrange(0, k as int) =~= seq![self.output]);
        assert(new@.subrange(0, new@.len() as int) =~= new@);
    }
}

impl OmegaOut {
    /// The argument links this node reads, in visiting order.
    pub open spec fn arguments(&self) -> Seq<Link> {
        seq![self.state] + export_references(self.exports@)
    }

    /// The node identifiers this node mentions, in visiting order.
    pub open spec fn ids(&self) -> Seq<u32> {
        seq![self.input] + seq![self.state.0] + link_ids(export_references(self.exports@))
    }

    /// The nodes this node structurally depends on, in visiting order.
    pub open spec fn requirements(&self) -> Seq<u32> {
        seq![self.input]
    }

    /// Whether `other` agrees with this node on everything but its argument links.
    pub open spec fn same_except_arguments(&self, other: &Self) -> bool {
        &&& self.input == other.input
        &&& export_identifiers(self.exports@) == export_identifiers(other.exports@)
    }

    /// Appends each argument link to `out`, in visiting order.
    pub fn for_each_argument(&self, out: &mut Vec<Link>)
        ensures
            final(out)@ == old(out)@ + self.arguments(),
    {
        let ghost start = out@;
        out.push(self.state);
        assert(out@ =~= start + seq![self.state]);
        push_export_links(out, &self.exports);
        assert(out@ =~= start + seq![self.state] + export_references(self.exports@));
    }

    /// Appends each node identifier this node mentions to `out`, in visiting order.
    pub fn for_each_id(&self, out: &mut Vec<u32>)
        ensures
            final(out)@ == old(out)@ + self.ids(),
    {
        let ghost start = out@;
        out.push(self.input);
        assert(out@ =~= start + seq![self.input]);
        out.push(self.state.0);
        assert(out@ =~= start + seq![self.input] + seq![self.state.0]);
        push_export_ids(out, &self.exports);
        assert(out@ =~= start + seq![self.input] + seq![self.state.0] + link_ids(export_references(self.exports@)));
    }

    /// Appends each structural requirement to `out`, in visiting order.
    pub fn for_each_requirement(&self, out: &mut Vec<u32>)
        ensures
            final(out)@ == old(out)@ + self.requirements(),
    {
        let ghost start = out@;
        out.push(self.input);
        assert(out@ =~= start + seq![self.input]);
    }

    /// Replaces the argument links, in visiting order, with `new`.
    pub fn for_each_mut_argument(&mut self, new: &[Link])
        requires
            new@.len() == old(self).arguments().len(),
        ensures
            final(self).arguments() == new@,
            old(self).same_except_arguments(&*final(self)),
    {
        let mut k: usize = 0;
        self.state = new[k];
        k = k + 1;
        assert(new@.subrange(0, k as int) =~= seq![self.state]);
        set_export_links(&mut self.exports, new, k);
        k = k + self.exports.len();
        assert(new@.subrange(0, k as int) =~= seq![self.state] + export_references(self.exports@));
        assert(new@.subrange(0, new@.len() as int) =~= new@);
    }

    /// Whether `other` agrees with this node on everything but the nodes it mentions.
    pub open spec fn same_except_ids(&self, other: &Self) -> bool {
        &&& self.state.1 == other.state.1
        &&& export_identifiers(self.exports@) == export_identifiers(other.exports@)
        &&& link_ports(export_references(self.exports@)) == link_ports(export_references(other.exports@))
    }

    /// Replaces the node identifiers, in visiting order, with `new`.
    pub fn for_each_mut_id(&mut self, new: &[u32])
        requires
            new@.len() == old(self).ids().len(),
        ensures
            final(self).ids() == new@,
            old(self).same_except_ids(&*final(self)),
    {
        let mut k: usize = 0;
        self.input = new[k];
        k = k + 1;
        assert(new@.subrange(0, k as int) =~= seq![self.input]);
        self.state = Link(new[k], self.state.1);
        k = k + 1;
        assert(new@.subrange(0, k as int) =~= seq![self.input] + seq![self.state.0]);
        set_export_ids(&mut self.exports, new, k);
        k = k + self.exports.len();
        assert(new@.subrange(0, k as int) =~= seq![self.input] + seq![self.state.0] + link_ids(export_references(self.exports@)));
        assert(new@.subrange(0, new@.len() as int) =~= new@);
    }
}

impl Identity {
    /// The argument links this node reads, in visiting order.
    pub open spec fn arguments(&self) -> Seq<Link> {
        self.sources@
    }

    /// The node identifiers this node mentions, in visiting order.
    pub open spec fn ids(&self) -> Seq<u32> {
        link_ids(self.sources@)
    }

    /// Whether `other` agrees with this node on everything but its argument links.
    pub open spec fn same_except_arguments(&self, other: &Self) -> bool {
        &&& self.sources@.len() == other.sources@.len()
    }

    /// Appends each argument link to `out`, in visiting order.
    pub fn for_each_argument(&self, out: &mut Vec<Link>)
        ensures
            final(out)@ == old(out)@ + self.arguments(),
    {
        let ghost start = out@;
        push_links(out, &self.sources);
        assert(out@ =~= start + self.sources@);
    }

    /// Appends each node identifier this node mentions to `out`, in visiting order.
    pub fn for_each_id(&self, out: &mut Vec<u32>)
        ensures
            final(out)@ == old(out)@ + self.ids(),
    {
        let ghost start = out@;
        push_link_ids(out, &self.sources);
        assert(out@ =~= start + link_ids(self.sources@));
    }

    /// Replaces the argument links, in visiting order, with `new`.
    pub fn for_each_mut_argument(&mut self, new: &[Link])
        requires
            new@.len() == old(self).arguments().len(),
        ensures
            final(self).arguments() == new@,
            old(self).same_except_arguments(&*final(self)),
    {
        let mut k: usize = 0;
        set_links(&mut self.sources, new, k);
        k = k + self.sources.len();
        assert(new@.subrange(0, k as int) =~= self.sources@);
        assert(new@.subrange(0, new@.len() as int) =~= new@);
    }

    /// Whether `other` agrees with this node on everything but the nodes it mentions.
    pub open spec fn same_except_ids(&self, other: &Self) -> bool {
        &&& link_ports(self.sources@) == link_ports(other.sources@)
    }

    /// Replaces the node identifiers, in visiting order, with `new`.
    pub fn for_each_mut_id(&mut self, new: &[u32])
        requires
            new@.len() == old(self).ids().len(),
        ensures
            final(self).ids() == new@,
            old(self).same_except_ids(&*final(self)),
    {
        let mut k: usize = 0;
        set_link_ids(&mut self.sources, new, k);
        k = k + self.sources.len();
        assert(new@.subrange(0, k as int) =~= link_ids(self.sources@));
        assert(new@.subrange(0, new@.len() as int) =~= new@);
    }
}

impl Fence {
    /// The argument links this node reads, in visiting order.
    pub open spec fn arguments(&self) -> Seq<Link> {
        self.sources@
    }

    /// The node identifiers this node mentions, in visiting order.
    pub open spec fn ids(&self) -> Seq<u32> {
        link_ids(self.sources@)
    }

    /// Whether `other` agrees with this node on everything but its argument links.
    pub open spec fn same_except_arguments(&self, other: &Self) -> bool {
        &&& self.sources@.len() == other.sources@.len()
    }

    /// Appends each argument link to `out`, in visiting order.
    pub fn for_each_argument(&self, out: &mut Vec<Link>)
        ensures
            final(out)@ == old(out)@ + self.arguments(),
    {
        let ghost start = out@;
        push_links(out, &self.sources);
        assert(out@ =~= start + self.sources@);
    }

    /// Appends each node identifier this node mentions to `out`, in visiting order.
    pub fn for_each_id(&self, out: &mut Vec<u32>)
        ensures
            final(out)@ == old(out)@ + self.ids(),
    {
        let ghost start = out@;
        push_link_ids(out, &self.sources);
        assert(out@ =~= start + link_ids(self.sources@));
    }

    /// Replaces the argument links, in visiting order, with `new`.
    pub fn for_each_mut_argument(&mut self, new: &[Link])
        requires
            new@.len() == old(self).arguments().len(),
        ensures
            final(self).arguments() == new@,
            old(self).same_except_arguments(&*final(self)),
    {
        let mut k: usize = 0;
        set_links(&mut self.sources, new, k);
        k = k + self.sources.len();
        assert(new@.subrange(0, k as int) =~= self.sources@);
        assert(new@.subrange(0, new@.len() as int) =~= new@);
    }

    /// Whether `other` agrees with this node on everything but the nodes it mentions.
    pub open spec fn same_except_ids(&self, other: &Self) -> bool {
        &&& link_ports(self.sources@) == link_ports(other.sources@)
    }

    /// Replaces the node identifiers, in visiting order, with `new`.
    pub fn for_each_mut_id(&mut self, new: &[u32])
        requires
            new@.len() == old(self).ids().len(),
        ensures
            final(self).ids() == new@,
            old(self).same_except_ids(&*final(self)),
    {
        let mut k: usize = 0;
        set_link_ids(&mut self.sources, new, k);
        k = k + self.sources.len();
        assert(new@.subrange(0, k as int) =~= link_ids(self.sources@));
        assert(new@.subrange(0, new@.len() as int) =~= new@);
    }
}

impl Apply {
    /// The argument links this node reads, in visiting order.
    pub open spec fn arguments(&self) -> Seq<Link> {
        seq![self.function] + self.arguments@
    }

    /// The node identifiers this node mentions, in visiting order.
    pub open spec fn ids(&self) -> Seq<u32> {
        seq![self.function.0] + link_ids(self.arguments@)
    }

    /// Whether `other` agrees with this node on everything but its argument links.
    pub open spec fn same_except_arguments(&self, other: &Self) -> bool {
        &&& self.arguments@.len() == other.arguments@.len()
        &&& self.results == other.results
    }

    /// Appends each argument link to `out`, in visiting order.
    pub fn for_each_argument(&self, out: &mut Vec<Link>)
        ensures
            final(out)@ == old(out)@ + self.arguments(),
    {
        let ghost start = out@;
        out.push(self.function);
        assert(out@ =~= start + seq![self.function]);
        push_links(out, &self.arguments);
        assert(out@ =~= start + seq![self.function] + self.arguments@);
    }

    /// Appends each node identifier this node mentions to `out`, in visiting order.
    pub fn for_each_id(&self, out: &mut Vec<u32>)
        ensures
            final(out)@ == old(out)@ + self.ids(),
    {
        let ghost start = out@;
        out.push(self.function.0);
        assert(out@ =~= start + seq![self.function.0]);
        push_link_ids(out, &self.arguments);
        assert(out@ =~= start + seq![self.function.0] + link_ids(self.arguments@));
    }

    /// Replaces the argument links, in visiting order, with `new`.
    pub fn for_each_mut_argument(&mut self, new: &[Link])
        requires
            new@.len() == old(self).arguments().len(),
        ensures
            final(self).arguments() == new@,
            old(self).same_except_arguments(&*final(self)),
    {
        let mut k: usize = 0;
        self.function = new[k];
        k = k + 1;
        assert(new@.subrange(0, k as int) =~= seq![self.function]);
        set_links(&mut self.arguments, new, k);
        k = k + self.arguments.len();
        assert(new@.subrange(0, k as int) =~= seq![self.function] + self.arguments@);
        assert(new@.subrange(0, new@.len() as int) =~= new@);
    }

    /// Whether `other` agrees with this node on everything but the nodes it mentions.
    pub open spec fn same_except_ids(&self, other: &Self) -> bool {
        &&& self.function.1 == other.function.1
        &&& link_ports(self.arguments@) == link_ports(other.arguments@)
        &&& self.results == other.results
    }

    /// Replaces the node identifiers, in visiting order, with `new`.
    pub fn for_each_mut_id(&mut self, new: &[u32])
        requires
            new@.len() == old(self).ids().len(),
        ensures
            final(self).ids() == new@,
            old(self).same_except_ids(&*final(self)),
    {
        let mut k: usize = 0;
        self.function = Link(new[k], self.function.1);
        k = k + 1;
        assert(new@.subrange(0, k as int) =~= seq![self.function.0]);
        set_link_ids(&mut self.arguments, new, k);
        k = k + self.arguments.len();
        assert(new@.subrange(0, k as int) =~= seq![self.function.0] + link_ids(self.arguments@));
        assert(new@.subrange(0, new@.len() as int) =~= new@);
    }
}

impl RefIsNull {
    /// The argument links this node reads, in visiting order.
    pub open spec fn arguments(&self) -> Seq<Link> {
        seq![self.source]
    }

    /// The node identifiers this node mentions, in visiting order.
    pub open spec fn ids(&self) -> Seq<u32> {
        seq![self.source.0]
    }

    /// Whether `other` agrees with this node on everything but its argument links.
    pub open spec fn same_except_arguments(&self, other: &Self) -> bool {
        true
    }

    /// Appends each argument link to `out`, in visiting order.
    pub fn for_each_argument(&self, out: &mut Vec<Link>)
        ensures
            final(out)@ == old(out)@ + self.arguments(),
    {
        let ghost start = out@;
        out.push(self.source);
        assert(out@ =~= start + seq![self.source]);
    }

    /// Appends each node identifier this node mentions to `out`, in visiting order.
    pub fn for_each_id(&self, out: &mut Vec<u32>)
        ensures
            final(out)@ == old(out)@ + self.ids(),
    {
        let ghost start = out@;
        out.push(self.source.0);
        assert(out@ =~= start + seq![self.source.0]);
    }

    /// Replaces the argument links, in visiting order, with `new`.
    pub fn for_each_mut_argument(&mut self, new: &[Link])
        requires
            new@.len() == old(self).arguments().len(),
        ensures
            final(self).arguments() == new@,
            old(self).same_except_arguments(&*final(self)),
    {
        let mut k: usize = 0;
        self.source = new[k];
        k = k + 1;
        assert(new@.subrange(0, k as int) =~= seq![self.source]);
        assert(new@.subrange(0, new@.len() as int) =~= new@);
    }

    /// Whether `other` agrees with this node on everything but the nodes it mentions.
    pub open spec fn same_except_ids(&self, other: &Self) -> bool {
        &&& self.source.1 == other.source.1
    }

    /// Replaces the node identifiers, in visiting order, with `new`.
    pub fn for_each_mut_id(&mut self, new: &[u32])
        requires
            new@.len() == old(self).ids().len(),
        ensures
            final(self).ids() == new@,
            old(self).same_except_ids(&*final(self)),
    {
        let mut k: usize = 0;
        self.source = Link(new[k], self.source.1);
        k = k + 1;
        assert(new@.subrange(0, k as int) =~= seq![self.source.0]);
        assert(new@.subrange(0, new@.len() as int) =~= new@);
    }
}

impl IntegerUnaryOperation {
    /// The argument links this node reads, in visiting order.
    pub open spec fn arguments(&self) -> Seq<Link> {
        seq![self.source]
    }

    /// The node identifiers this node mentions, in visiting order.
    pub open spec fn ids(&self) -> Seq<u32> {
        seq![self.source.0]
    }

    /// Whether `other` agrees with this node on everything but its argument links.
    pub open spec fn same_except_arguments(&self, other: &Self) -> bool {
        &&& self.kind == other.kind
        &&& self.operator == other.operator
    }

    /// Appends each argument link to `out`, in visiting order.
    pub fn for_each_argument(&self, out: &mut Vec<Link>)
        ensures
            final(out)@ == old(out)@ + self.arguments(),
    {
        let ghost start = out@;
        out.push(self.source);
        assert(out@ =~= start + seq![self.source]);
    }

    /// Appends each node identifier this node mentions to `out`, in visiting order.
    pub fn for_each_id(&self, out: &mut Vec<u32>)
        ensures
            final(out)@ == old(out)@ + self.ids(),
    {
        let ghost start = out@;
        out.push(self.source.0);
        assert(out@ =~= start + seq![self.source.0]);
    }

    /// Replaces the argument links, in visiting order, with `new`.
    pub fn for_each_mut_argument(&mut self, new: &[Link])
        requires
            new@.len() == old(self).arguments().len(),
        ensures
            final(self).arguments() == new@,
            old(self).same_except_arguments(&*final(self)),
    {
        let mut k: usize = 0;
        self.source = new[k];
        k = k + 1;
        assert(new@.subrange(0, k as int) =~= seq![self.source]);
        assert(new@.subrange(0, new@.len() as int) =~= new@);
    }

    /// Whether `other` agrees with this node on everything but the nodes it mentions.
    pub open spec fn same_except_ids(&self, other: &Self) -> bool {
        &&& self.source.1 == other.source.1
        &&& self.kind == other.kind
        &&& self.operator == other.operator
    }

    /// Replaces the node identifiers, in visiting order, with `new`.
    pub fn for_each_mut_id(&mut self, new: &[u32])
        requires
            new@.len() == old(self).ids().len(),
        ensures
            final(self).ids() == new@,
            old(self).same_except_ids(&*final(self)),
    {
        let mut k: usize = 0;
        self.source = Link(new[k], self.source.1);
        k = k + 1;
        assert(new@.subrange(0, k as int) =~= seq![self.source.0]);
        assert(new@.subrange(0, new@.len() as int) =~= new@);
    }
}

impl IntegerBinaryOperation {
    /// The argument links this node reads, in visiting order.
    pub open spec fn arguments(&self) -> Seq<Link> {
        seq![self.lhs] + seq![self.rhs]
    }

    /// The node identifiers this node mentions, in visiting order.
    pub open spec fn ids(&self) -> Seq<u32> {
        seq![self.lhs.0] + seq![self.rhs.0]
    }

    /// Whether `other` agrees with this node on everything but its argument links.
    pub open spec fn same_except_arguments(&self, other: &Self) -> bool {
        &&& self.kind == other.kind
        &&& self.operator == other.operator
    }

    /// Appends each argument link to `out`, in visiting order.
    pub fn for_each_argument(&self, out: &mut Vec<Link>)
        ensures
            final(out)@ == old(out)@ + self.arguments(),
    {
        let ghost start = out@;
        out.push(self.lhs);
        assert(out@ =~= start + seq![self.lhs]);
        out.push(self.rhs);
        assert(out@ =~= start + seq![self.lhs] + seq![self.rhs]);
    }

    /// Appends each node identifier this node mentions to `out`, in visiting order.
    pub fn for_each_id(&self, out: &mut Vec<u32>)
        ensures
            final(out)@ == old(out)@ + self.ids(),
    {
        let ghost start = out@;
        out.push(self.lhs.0);
        assert(out@ =~= start + seq![self.lhs.0]);
        out.push(self.rhs.0);
        assert(out@ =~= start + seq![self.lhs.0] + seq![self.rhs.0]);
    }

    /// Replaces the argument links, in visiting order, with `new`.
    pub fn for_each_mut_argument(&mut self, new: &[Link])
        requires
            new@.len() == old(self).arguments().len(),
        ensures
            final(self).arguments() == new@,
            old(self).same_except_arguments(&*final(self)),
    {
        let mut k: usize = 0;
        self.lhs = new[k];
        k = k + 1;
        assert(new@.subrange(0, k as int) =~= seq![self.lhs]);
        self.rhs = new[k];
        k = k + 1;
        assert(new@.subrange(0, k as int) =~= seq![self.lhs] + seq![self.rhs]);
        assert(new@.subrange(0, new@.len() as int) =~= new@);
    }

    /// Whether `other` agrees with this node on everything but the nodes it mentions.
    pub open spec fn same_except_ids(&self, other: &Self) -> bool {
        &&& self.lhs.1 == other.lhs.1
        &&& self.rhs.1 == other.rhs.1
        &&& self.kind == other.kind
        &&& self.operator == other.operator
    }

    /// Replaces the node identifiers, in visiting order, with `new`.
    pub fn for_each_mut_id(&mut self, new: &[u32])
        requires
            new@.len() == old(self).ids().len(),
        ensures
            final(self).ids() == new@,
            old(self).same_except_ids(&*final(self)),
    {
        let mut k: usize = 0;
        self.lhs = Link(new[k], self.lhs.1);
        k = k + 1;
        assert(new@.subrange(0, k as int) =~= seq![self.lhs.0]);
        self.rhs = Link(new[k], self.rhs.1);
        k = k + 1;
        assert(new@.subrange(0, k as int) =~= seq![self.lhs.0] + seq![self.rhs.0]);
        assert(new@.subrange(0, new@.len() as int) =~= new@);
    }
}

impl IntegerCompareOperation {
    /// The argument links this node reads, in visiting order.
    pub open spec fn arguments(&self) -> Seq<Link> {
        seq![self.lhs] + seq![self.rhs]
    }

    /// The node identifiers this node mentions, in visiting order.
    pub open spec fn ids(&self) -> Seq<u32> {
        seq![self.lhs.0] + seq![self.rhs.0]
    }

    /// Whether `other` agrees with this node on everything but its argument links.
    pub open spec fn same_except_arguments(&self, other: &Self) -> bool {
        &&& self.kind == other.kind
        &&& self.operator == other.operator
    }

    /// Appends each argument link to `out`, in visiting order.
    pub fn for_each_argument(&self, out: &mut Vec<Link>)
        ensures
            final(out)@ == old(out)@ + self.arguments(),
    {
        let ghost start = out@;
        out.push(self.lhs);
        assert(out@ =~= start + seq![self.lhs]);
        out.push(self.rhs);
        assert(out@ =~= start + seq![self.lhs] + seq![self.rhs]);
    }

    /// Appends each node identifier this node mentions to `out`, in visiting order.
    pub fn for_each_id(&self, out: &mut Vec<u32>)
        ensures
            final(out)@ == old(out)@ + self.ids(),
    {
        let ghost start = out@;
        out.push(self.lhs.0);
        assert(out@ =~= start + seq![self.lhs.0]);
        out.push(self.rhs.0);
        assert(out@ =~= start + seq![self.lhs.0] + seq![self.rhs.0]);
    }

    /// Replaces the argument links, in visiting order, with `new`.
    pub fn for_each_mut_argument(&mut self, new: &[Link])
        requires
            new@.len() == old(self).arguments().len(),
        ensures
            final(self).arguments() == new@,
            old(self).same_except_arguments(&*final(self)),
    {
        let mut k: usize = 0;
        self.lhs = new[k];
        k = k + 1;
        assert(new@.subrange(0, k as int) =~= seq![self.lhs]);
        self.rhs = new[k];
        k = k + 1;
        assert(new@.subrange(0, k as int) =~= seq![self.lhs] + seq![self.rhs]);
        assert(new@.subrange(0, new@.len() as int) =~= new@);
    }

    /// Whether `other` agrees with this node on everything but the nodes it mentions.
    pub open spec fn same_except_ids(&self, other: &Self) -> bool {
        &&& self.lhs.1 == other.lhs.1
        &&& self.rhs.1 == other.rhs.1
        &&& self.kind == other.kind
        &&& self.operator == other.operator
    }

    /// Replaces the node identifiers, in visiting order, with `new`.
    pub fn for_each_mut_id(&mut self, new: &[u32])
        requires
            new@.len() == old(self).ids().len(),
        ensures
            final(self).ids() == new@,
            old(self).same_except_ids(&*final(self)),
    {
        let mut k: usize = 0;
        self.lhs = Link(new[k], self.lhs.1);
        k = k + 1;
        assert(new@.subrange(0, k as int) =~= seq![self.lhs.0]);
        self.rhs = Link(new[k], self.rhs.1);
        k = k + 1;
        assert(new@.subrange(0, k as int) =~= seq![self.lhs.0] + seq![self.rhs.0]);
        assert(new@.subrange(0, new@.len() as int) =~= new@);
    }
}

impl IntegerNarrow {
    /// The argument links this node reads, in visiting order.
    pub open spec fn arguments(&self) -> Seq<Link> {
        seq![self.source]
    }

    /// The node identifiers this node mentions, in visiting order.
    pub open spec fn ids(&self) -> Seq<u32> {
        seq![self.source.0]
    }

    /// Whether `other` agrees with this node on everything but its argument links.
    pub open spec fn same_except_arguments(&self, other: &Self) -> bool {
        true
    }

    /// Appends each argument link to `out`, in visiting order.
    pub fn for_each_argument(&self, out: &mut Vec<Link>)
        ensures
            final(out)@ == old(out)@ + self.arguments(),
    {
        let ghost start = out@;
        out.push(self.source);
        assert(out@ =~= start + seq![self.source]);
    }

    /// Appends each node identifier this node mentions to `out`, in visiting order.
    pub fn for_each_id(&self, out: &mut Vec<u32>)
        ensures
            final(out)@ == old(out)@ + self.ids(),
    {
        let ghost start = out@;
        out.push(self.source.0);
        assert(out@ =~= start + seq![self.source.0]);
    }

    /// Replaces the argument links, in visiting order, with `new`.
    pub fn for_each_mut_argument(&mut self, new: &[Link])
        requires
            new@.len() == old(self).arguments().len(),
        ensures
            final(self).arguments() == new@,
            old(self).same_except_arguments(&*final(self)),
    {
        let mut k: usize = 0;
        self.source = new[k];
        k = k + 1;
        assert(new@.subrange(0, k as int) =~= seq![self.source]);
        assert(new@.subrange(0, new@.len() as int) =~= new@);
    }

    /// Whether `other` agrees with this node on everything but the nodes it mentions.
    pub open spec fn same_except_ids(&self, other: &Self) -> bool {
        &&& self.source.1 == other.source.1
    }

    /// Replaces the node identifiers, in visiting order, with `new`.
    pub fn for_each_mut_id(&mut self, new: &[u32])
        requires
            new@.len() == old(self).ids().len(),
        ensures
            final(self).ids() == new@,
            old(self).same_except_ids(&*final(self)),
    {
        let mut k: usize = 0;
        self.source = Link(new[k], self.source.1);
        k = k + 1;
        assert(new@.subrange(0, k as int) =~= seq![self.source.0]);
        assert(new@.subrange(0, new@.len() as int) =~= new@);
    }
}

impl IntegerWiden {
    /// The argument links this node reads, in visiting order.
    pub open spec fn arguments(&self) -> Seq<Link> {
        seq![self.source]
    }

    /// The node identifiers this node mentions, in visiting order.
    pub open spec fn ids(&self) -> Seq<u32> {
        seq![self.source.0]
    }

    /// Whether `other` agrees with this node on everything but its argument links.
    pub open spec fn same_except_arguments(&self, other: &Self) -> bool {
        true
    }

    /// Appends each argument link to `out`, in visiting order.
    pub fn for_each_argument(&self, out: &mut Vec<Link>)
        ensures
            final(out)@ == old(out)@ + self.arguments(),
    {
        let ghost start = out@;
        out.push(self.source);
        assert(out@ =~= start + seq![self.source]);
    }

    /// Appends each node identifier this node mentions to `out`, in visiting order.
    pub fn for_each_id(&self, out: &mut Vec<u32>)
        ensures
            final(out)@ == old(out)@ + self.ids(),
    {
        let ghost start = out@;
        out.push(self.source.0);
        assert(out@ =~= start + seq![self.source.0]);
    }

    /// Replaces the argument links, in visiting order, with `new`.
    pub fn for_each_mut_argument(&mut self, new: &[Link])
        requires
            new@.len() == old(self).arguments().len(),
        ensures
            final(self).arguments() == new@,
            old(self).same_except_arguments(&*final(self)),
    {
        let mut k: usize = 0;
        self.source = new[k];
        k = k + 1;
        assert(new@.subrange(0, k as int) =~= seq![self.source]);
        assert(new@.subrange(0, new@.len() as int) =~= new@);
    }

    /// Whether `other` agrees with this node on everything but the nodes it mentions.
    pub open spec fn same_except_ids(&self, other: &Self) -> bool {
        &&& self.source.1 == other.source.1
    }

    /// Replaces the node identifiers, in visiting order, with `new`.
    pub fn for_each_mut_id(&mut self, new: &[u32])
        requires
            new@.len() == old(self).ids().len(),
        ensures
            final(self).ids() == new@,
            old(self).same_except_ids(&*final(self)),
    {
        let mut k: usize = 0;
        self.source = Link(new[k], self.source.1);
        k = k + 1;
        assert(new@.subrange(0, k as int) =~= seq![self.source.0]);
        assert(new@.subrange(0, new@.len() as int) =~= new@);
    }
}

impl IntegerExtend {
    /// The argument links this node reads, in visiting order.
    pub open spec fn arguments(&self) -> Seq<Link> {
        seq![self.source]
    }

    /// The node identifiers this node mentions, in visiting order.
    pub open spec fn ids(&self) -> Seq<u32> {
        seq![self.source.0]
    }

    /// Whether `other` agrees with this node on everything but its argument links.
    pub open spec fn same_except_arguments(&self, other: &Self) -> bool {
        &&& self.kind == other.kind
    }

    /// Appends each argument link to `out`, in visiting order.
    pub fn for_each_argument(&self, out: &mut Vec<Link>)
        ensures
            final(out)@ == old(out)@ + self.arguments(),
    {
        let ghost start = out@;
        out.push(self.source);
        assert(out@ =~= start + seq![self.source]);
    }

    /// Appends each node identifier this node mentions to `out`, in visiting order.
    pub fn for_each_id(&self, out: &mut Vec<u32>)
        ensures
            final(out)@ == old(out)@ + self.ids(),
    {
        let ghost start = out@;
        out.push(self.source.0);
        assert(out@ =~= start + seq![self.source.0]);
    }

    /// Replaces the argument links, in visiting order, with `new`.
    pub fn for_each_mut_argument(&mut self, new: &[Link])
        requires
            new@.len() == old(self).arguments().len(),
        ensures
            final(self).arguments() == new@,
            old(self).same_except_arguments(&*final(self)),
    {
        let mut k: usize = 0;
        self.source = new[k];
        k = k + 1;
        assert(new@.subrange(0, k as int) =~= seq![self.source]);
        assert(new@.subrange(0, new@.len() as int) =~= new@);
    }

    /// Whether `other` agrees with this node on everything but the nodes it mentions.
    pub open spec fn same_except_ids(&self, other: &Self) -> bool {
        &&& self.source.1 == other.source.1
        &&& self.kind == other.kind
    }

    /// Replaces the node identifiers, in visiting order, with `new`.
    pub fn for_each_mut_id(&mut self, new: &[u32])
        requires
            new@.len() == old(self).ids().len(),
        ensures
            final(self).ids() == new@,
            old(self).same_except_ids(&*final(self)),
    {
        let mut k: usize = 0;
        self.source = Link(new[k], self.source.1);
        k = k + 1;
        assert(new@.subrange(0, k as int) =~= seq![self.source.0]);
        assert(new@.subrange(0, new@.len() as int) =~= new@);
    }
}

impl IntegerConvertToNumber {
    /// The argument links this node reads, in visiting order.
    pub open spec fn arguments(&self) -> Seq<Link> {
        seq![self.source]
    }

    /// The node identifiers this node mentions, in visiting order.
    pub open spec fn ids(&self) -> Seq<u32> {
        seq![self.source.0]
    }

    /// Whether `other` agrees with this node on everything but its argument links.
    pub open spec fn same_except_arguments(&self, other: &Self) -> bool {
        &&& self.signed == other.signed
        &&& self.to == other.to
        &&& self.from == other.from
    }

    /// Appends each argument link to `out`, in visiting order.
    pub fn for_each_argument(&self, out: &mut Vec<Link>)
        ensures
            final(out)@ == old(out)@ + self.arguments(),
    {
        let ghost start = out@;
        out.push(self.source);
        assert(out@ =~= start + seq![self.source]);
    }

    /// Appends each node identifier this node mentions to `out`, in visiting order.
    pub fn for_each_id(&self, out: &mut Vec<u32>)
        ensures
            final(out)@ == old(out)@ + self.ids(),
    {
        let ghost start = out@;
        out.push(self.source.0);
        assert(out@ =~= start + seq![self.source.0]);
    }

    /// Replaces the argument links, in visiting order, with `new`.
    pub fn for_each_mut_argument(&mut self, new: &[Link])
        requires
            new@.len() == old(self).arguments().len(),
        ensures
            final(self).arguments() == new@,
            old(self).same_except_arguments(&*final(self)),
    {
        let mut k: usize = 0;
        self.source = new[k];
        k = k + 1;
        assert(new@.subrange(0, k as int) =~= seq![self.source]);
        assert(new@.subrange(0, new@.len() as int) =~= new@);
    }

    /// Whether `other` agrees with this node on everything but the nodes it mentions.
    pub open spec fn same_except_ids(&self, other: &Self) -> bool {
        &&& self.source.1 == other.source.1
        &&& self.signed == other.signed
        &&& self.to == other.to
        &&& self.from == other.from
    }

    /// Replaces the node identifiers, in visiting order, with `new`.
    pub fn for_each_mut_id(&mut self, new: &[u32])
        requires
            new@.len() == old(self).ids().len(),
        ensures
            final(self).ids() == new@,
            old(self).same_except_ids(&*final(self)),
    {
        let mut k: usize = 0;
        self.source = Link(new[k], self.source.1);
        k = k + 1;
        assert(new@.subrange(0, k as int) =~= seq![self.source.0]);
        assert(new@.subrange(0, new@.len() as int) =~= new@);
    }
}

impl IntegerTransmuteToNumber {
    /// The argument links this node reads, in visiting order.
    pub open spec fn arguments(&self) -> Seq<Link> {
        seq![self.source]
    }

    /// The node identifiers this node mentions, in visiting order.
    pub open spec fn ids(&self) -> Seq<u32> {
        seq![self.source.0]
    }

    /// Whether `other` agrees with this node on everything but its argument links.
    pub open spec fn same_except_arguments(&self, other: &Self) -> bool {
        &&& self.from == other.from
    }

    /// Appends each argument link to `out`, in visiting order.
    pub fn for_each_argument(&self, out: &mut Vec<Link>)
        ensures
            final(out)@ == old(out)@ + self.arguments(),
    {
        let ghost start = out@;
        out.push(self.source);
        assert(out@ =~= start + seq![self.source]);
    }

    /// Appends each node identifier this node mentions to `out`, in visiting order.
    pub fn for_each_id(&self, out: &mut Vec<u32>)
        ensures
            final(out)@ == old(out)@ + self.ids(),
    {
        let ghost start = out@;
        out.push(self.source.0);
        assert(out@ =~= start + seq![self.source.0]);
    }

    /// Replaces the argument links, in visiting order, with `new`.
    pub fn for_each_mut_argument(&mut self, new: &[Link])
        requires
            new@.len() == old(self).arguments().len(),
        ensures
            final(self).arguments() == new@,
            old(self).same_except_arguments(&*final(self)),
    {
        let mut k: usize = 0;
        self.source = new[k];
        k = k + 1;
        assert(new@.subrange(0, k as int) =~= seq![self.source]);
        assert(new@.subrange(0, new@.len() as int) =~= new@);
    }

    /// Whether `other` agrees with this node on everything but the nodes it mentions.
    pub open spec fn same_except_ids(&self, other: &Self) -> bool {
        &&& self.source.1 == other.source.1
        &&& self.from == other.from
    }

    /// Replaces the node identifiers, in visiting order, with `new`.
    pub fn for_each_mut_id(&mut self, new: &[u32])
        requires
            new@.len() == old(self).ids().len(),
        ensures
            final(self).ids() == new@,
            old(self).same_except_ids(&*final(self)),
    {
        let mut k: usize = 0;
        self.source = Link(new[k], self.source.1);
        k = k + 1;
        assert(new@.subrange(0, k as int) =~= seq![self.source.0]);
        assert(new@.subrange(0, new@.len() as int) =~= new@);
    }
}

impl NumberUnaryOperation {
    /// The argument links this node reads, in visiting order.
    pub open spec fn arguments(&self) -> Seq<Link> {
        seq![self.source]
    }

    /// The node identifiers this node mentions, in visiting order.
    pub open spec fn ids(&self) -> Seq<u32> {
        seq![self.source.0]
    }

    /// Whether `other` agrees with this node on everything but its argument links.
    pub open spec fn same_except_arguments(&self, other: &Self) -> bool {
        &&& self.kind == other.kind
        &&& self.operator == other.operator
    }

    /// Appends each argument link to `out`, in visiting order.
    pub fn for_each_argument(&self, out: &mut Vec<Link>)
        ensures
            final(out)@ == old(out)@ + self.arguments(),
    {
        let ghost start = out@;
        out.push(self.source);
        assert(out@ =~= start + seq![self.source]);
    }

    /// Appends each node identifier this node mentions to `out`, in visiting order.
    pub fn for_each_id(&self, out: &mut Vec<u32>)
        ensures
            final(out)@ == old(out)@ + self.ids(),
    {
        let ghost start = out@;
        out.push(self.source.0);
        assert(out@ =~= start + seq![self.source.0]);
    }

    /// Replaces the argument links, in visiting order, with `new`.
    pub fn for_each_mut_argument(&mut self, new: &[Link])
        requires
            new@.len() == old(self).arguments().len(),
        ensures
            final(self).arguments() == new@,
            old(self).same_except_arguments(&*final(self)),
    {
        let mut k: usize = 0;
        self.source = new[k];
        k = k + 1;
        assert(new@.subrange(0, k as int) =~= seq![self.source]);
        assert(new@.subrange(0, new@.len() as int) =~= new@);
    }

    /// Whether `other` agrees with this node on everything but the nodes it mentions.
    pub open spec fn same_except_ids(&self, other: &Self) -> bool {
        &&& self.source.1 == other.source.1
        &&& self.kind == other.kind
        &&& self.operator == other.operator
    }

    /// Replaces the node identifiers, in visiting order, with `new`.
    pub fn for_each_mut_id(&mut self, new: &[u32])
        requires
            new@.len() == old(self).ids().len(),
        ensures
            final(self).ids() == new@,
            old(self).same_except_ids(&*final(self)),
    {
        let mut k: usize = 0;
        self.source = Link(new[k], self.source.1);
        k = k + 1;
        assert(new@.subrange(0, k as int) =~= seq![self.source.0]);
        assert(new@.subrange(0, new@.len() as int) =~= new@);
    }
}

impl NumberBinaryOperation {
    /// The argument links this node reads, in visiting order.
    pub open spec fn arguments(&self) -> Seq<Link> {
        seq![self.lhs] + seq![self.rhs]
    }

    /// The node identifiers this node mentions, in visiting order.
    pub open spec fn ids(&self) -> Seq<u32> {
        seq![self.lhs.0] + seq![self.rhs.0]
    }

    /// Whether `other` agrees with this node on everything but its argument links.
    pub open spec fn same_except_arguments(&self, other: &Self) -> bool {
        &&& self.kind == other.kind
        &&& self.operator == other.operator
    }

    /// Appends each argument link to `out`, in visiting order.
    pub fn for_each_argument(&self, out: &mut Vec<Link>)
        ensures
            final(out)@ == old(out)@ + self.arguments(),
    {
        let ghost start = out@;
        out.push(self.lhs);
        assert(out@ =~= start + seq![self.lhs]);
        out.push(self.rhs);
        assert(out@ =~= start + seq![self.lhs] + seq![self.rhs]);
    }

    /// Appends each node identifier this node mentions to `out`, in visiting order.
    pub fn for_each_id(&self, out: &mut Vec<u32>)
        ensures
            final(out)@ == old(out)@ + self.ids(),
    {
        let ghost start = out@;
        out.push(self.lhs.0);
        assert(out@ =~= start + seq![self.lhs.0]);
        out.push(self.rhs.0);
        assert(out@ =~= start + seq![self.lhs.0] + seq![self.rhs.0]);
    }

    /// Replaces the argument links, in visiting order, with `new`.
    pub fn for_each_mut_argument(&mut self, new: &[Link])
        requires
            new@.len() == old(self).arguments().len(),
        ensures
            final(self).arguments() == new@,
            old(self).same_except_arguments(&*final(self)),
    {
        let mut k: usize = 0;
        self.lhs = new[k];
        k = k + 1;
        assert(new@.subrange(0, k as int) =~= seq![self.lhs]);
        self.rhs = new[k];
        k = k + 1;
        assert(new@.subrange(0, k as int) =~= seq![self.lhs] + seq![self.rhs]);
        assert(new@.subrange(0, new@.len() as int) =~= new@);
    }

    /// Whether `other` agrees with this node on everything but the nodes it mentions.
    pub open spec fn same_except_ids(&self, other: &Self) -> bool {
        &&& self.lhs.1 == other.lhs.1
        &&& self.rhs.1 == other.rhs.1
        &&& self.kind == other.kind
        &&& self.operator == other.operator
    }

    /// Replaces the node identifiers, in visiting order, with `new`.
    pub fn for_each_mut_id(&mut self, new: &[u32])
        requires
            new@.len() == old(self).ids().len(),
        ensures
            final(self).ids() == new@,
            old(self).same_except_ids(&*final(self)),
    {
        let mut k: usize = 0;
        self.lhs = Link(new[k], self.lhs.1);
        k = k + 1;
        assert(new@.subrange(0, k as int) =~= seq![self.lhs.0]);
        self.rhs = Link(new[k], self.rhs.1);
        k = k + 1;
        assert(new@.subrange(0, k as int) =~= seq![self.lhs.0] + seq![self.rhs.0]);
        assert(new@.subrange(0, new@.len() as int) =~= new@);
    }
}

impl NumberCompareOperation {
    /// The argument links this node reads, in visiting order.
    pub open spec fn arguments(&self) -> Seq<Link> {
        seq![self.lhs] + seq![self.rhs]
    }

    /// The node identifiers this node mentions, in visiting order.
    pub open spec fn ids(&self) -> Seq<u32> {
        seq![self.lhs.0] + seq![self.rhs.0]
    }

    /// Whether `other` agrees with this node on everything but its argument links.
    pub open spec fn same_except_arguments(&self, other: &Self) -> bool {
        &&& self.kind == other.kind
        &&& self.operator == other.operator
    }

    /// Appends each argument link to `out`, in visiting order.
    pub fn for_each_argument(&self, out: &mut Vec<Link>)
        ensures
            final(out)@ == old(out)@ + self.arguments(),
    {
        let ghost start = out@;
        out.push(self.lhs);
        assert(out@ =~= start + seq![self.lhs]);
        out.push(self.rhs);
        assert(out@ =~= start + seq![self.lhs] + seq![self.rhs]);
    }

    /// Appends each node identifier this node mentions to `out`, in visiting order.
    pub fn for_each_id(&self, out: &mut Vec<u32>)
        ensures
            final(out)@ == old(out)@ + self.ids(),
    {
        let ghost start = out@;
        out.push(self.lhs.0);
        assert(out@ =~= start + seq![self.lhs.0]);
        out.push(self.rhs.0);
        assert(out@ =~= start + seq![self.lhs.0] + seq![self.rhs.0]);
    }

    /// Replaces the argument links, in visiting order, with `new`.
    pub fn for_each_mut_argument(&mut self, new: &[Link])
        requires
            new@.len() == old(self).arguments().len(),
        ensures
            final(self).arguments() == new@,
            old(self).same_except_arguments(&*final(self)),
    {
        let mut k: usize = 0;
        self.lhs = new[k];
        k = k + 1;
        assert(new@.subrange(0, k as int) =~= seq![self.lhs]);
        self.rhs = new[k];
        k = k + 1;
        assert(new@.subrange(0, k as int) =~= seq![self.lhs] + seq![self.rhs]);
        assert(new@.subrange(0, new@.len() as int) =~= new@);
    }

    /// Whether `other` agrees with this node on everything but the nodes it mentions.
    pub open spec fn same_except_ids(&self, other: &Self) -> bool {
        &&& self.lhs.1 == other.lhs.1
        &&& self.rhs.1 == other.rhs.1
        &&& self.kind == other.kind
        &&& self.operator == other.operator
    }

    /// Replaces the node identifiers, in visiting order, with `new`.
    pub fn for_each_mut_id(&mut self, new: &[u32])
        requires
            new@.len() == old(self).ids().len(),
        ensures
            final(self).ids() == new@,
            old(self).same_except_ids(&*final(self)),
    {
        let mut k: usize = 0;
        self.lhs = Link(new[k], self.lhs.1);
        k = k + 1;
        assert(new@.subrange(0, k as int) =~= seq![self.lhs.0]);
        self.rhs = Link(new[k], self.rhs.1);
        k = k + 1;
        assert(new@.subrange(0, k as int) =~= seq![self.lhs.0] + seq![self.rhs.0]);
        assert(new@.subrange(0, new@.len() as int) =~= new@);
    }
}

impl NumberTruncateToInteger {
    /// The argument links this node reads, in visiting order.
    pub open spec fn arguments(&self) -> Seq<Link> {
        seq![self.source]
    }

    /// The node identifiers this node mentions, in visiting order.
    pub open spec fn ids(&self) -> Seq<u32> {
        seq![self.source.0]
    }

    /// Whether `other` agrees with this node on everything but its argument links.
    pub open spec fn same_except_arguments(&self, other: &Self) -> bool {
        &&& self.signed == other.signed
        &&& self.saturate == other.saturate
        &&& self.to == other.to
        &&& self.from == other.from
    }

    /// Appends each argument link to `out`, in visiting order.
    pub fn for_each_argument(&self, out: &mut Vec<Link>)
        ensures
            final(out)@ == old(out)@ + self.arguments(),
    {
        let ghost start = out@;
        out.push(self.source);
        assert(out@ =~= start + seq![self.source]);
    }

    /// Appends each node identifier this node mentions to `out`, in visiting order.
    pub fn for_each_id(&self, out: &mut Vec<u32>)
        ensures
            final(out)@ == old(out)@ + self.ids(),
    {
        let ghost start = out@;
        out.push(self.source.0);
        assert(out@ =~= start + seq![self.source.0]);
    }

    /// Replaces the argument links, in visiting order, with `new`.
    pub fn for_each_mut_argument(&mut self, new: &[Link])
        requires
            new@.len() == old(self).arguments().len(),
        ensures
            final(self).arguments() == new@,
            old(self).same_except_arguments(&*final(self)),
    {
        let mut k: usize = 0;
        self.source = new[k];
        k = k + 1;
        assert(new@.subrange(0, k as int) =~= seq![self.source]);
        assert(new@.subrange(0, new@.len() as int) =~= new@);
    }

    /// Whether `other` agrees with this node on everything but the nodes it mentions.
    pub open spec fn same_except_ids(&self, other: &Self) -> bool {
        &&& self.source.1 == other.source.1
        &&& self.signed == other.signed
        &&& self.saturate == other.saturate
        &&& self.to == other.to
        &&& self.from == other.from
    }

    /// Replaces the node identifiers, in visiting order, with `new`.
    pub fn for_each_mut_id(&mut self, new: &[u32])
        requires
            new@.len() == old(self).ids().len(),
        ensures
            final(self).ids() == new@,
            old(self).same_except_ids(&*final(self)),
    {
        let mut k: usize = 0;
        self.source = Link(new[k], self.source.1);
        k = k + 1;
        assert(new@.subrange(0, k as int) =~= seq![self.source.0]);
        assert(new@.subrange(0, new@.len() as int) =~= new@);
    }
}

impl NumberTransmuteToInteger {
    /// The argument links this node reads, in visiting order.
    pub open spec fn arguments(&self) -> Seq<Link> {
        seq![self.source]
    }

    /// The node identifiers this node mentions, in visiting order.
    pub open spec fn ids(&self) -> Seq<u32> {
        seq![self.source.0]
    }

    /// Whether `other` agrees with this node on everything but its argument links.
    pub open spec fn same_except_arguments(&self, other: &Self) -> bool {
        &&& self.from == other.from
    }

    /// Appends each argument link to `out`, in visiting order.
    pub fn for_each_argument(&self, out: &mut Vec<Link>)
        ensures
            final(out)@ == old(out)@ + self.arguments(),
    {
        let ghost start = out@;
        out.push(self.source);
        assert(out@ =~= start + seq![self.source]);
    }

    /// Appends each node identifier this node mentions to `out`, in visiting order.
    pub fn for_each_id(&self, out: &mut Vec<u32>)
        ensures
            final(out)@ == old(out)@ + self.ids(),
    {
        let ghost start = out@;
        out.push(self.source.0);
        assert(out@ =~= start + seq![self.source.0]);
    }

    /// Replaces the argument links, in visiting order, with `new`.
    pub fn for_each_mut_argument(&mut self, new: &[Link])
        requires
            new@.len() == old(self).arguments().len(),
        ensures
            final(self).arguments() == new@,
            old(self).same_except_arguments(&*final(self)),
    {
        let mut k: usize = 0;
        self.source = new[k];
        k = k + 1;
        assert(new@.subrange(0, k as int) =~= seq![self.source]);
        assert(new@.subrange(0, new@.len() as int) =~= new@);
    }

    /// Whether `other` agrees with this node on everything but the nodes it mentions.
    pub open spec fn same_except_ids(&self, other: &Self) -> bool {
        &&& self.source.1 == other.source.1
        &&& self.from == other.from
    }

    /// Replaces the node identifiers, in visiting order, with `new`.
    pub fn for_each_mut_id(&mut self, new: &[u32])
        requires
            new@.len() == old(self).ids().len(),
        ensures
            final(self).ids() == new@,
            old(self).same_except_ids(&*final(self)),
    {
        let mut k: usize = 0;
        self.source = Link(new[k], self.source.1);
        k = k + 1;
        assert(new@.subrange(0, k as int) =~= seq![self.source.0]);
        assert(new@.subrange(0, new@.len() as int) =~= new@);
    }
}

impl NumberNarrow {
    /// The argument links this node reads, in visiting order.
    pub open spec fn arguments(&self) -> Seq<Link> {
        seq![self.source]
    }

    /// The node identifiers this node mentions, in visiting order.
    pub open spec fn ids(&self) -> Seq<u32> {
        seq![self.source.0]
    }

    /// Whether `other` agrees with this node on everything but its argument links.
    pub open spec fn same_except_arguments(&self, other: &Self) -> bool {
        true
    }

    /// Appends each argument link to `out`, in visiting order.
    pub fn for_each_argument(&self, out: &mut Vec<Link>)
        ensures
            final(out)@ == old(out)@ + self.arguments(),
    {
        let ghost start = out@;
        out.push(self.source);
        assert(out@ =~= start + seq![self.source]);
    }

    /// Appends each node identifier this node mentions to `out`, in visiting order.
    pub fn for_each_id(&self, out: &mut Vec<u32>)
        ensures
            final(out)@ == old(out)@ + self.ids(),
    {
        let ghost start = out@;
        out.push(self.source.0);
        assert(out@ =~= start + seq![self.source.0]);
    }

    /// Replaces the argument links, in visiting order, with `new`.
    pub fn for_each_mut_argument(&mut self, new: &[Link])
        requires
            new@.len() == old(self).arguments().len(),
        ensures
            final(self).arguments() == new@,
            old(self).same_except_arguments(&*final(self)),
    {
        let mut k: usize = 0;
        self.source = new[k];
        k = k + 1;
        assert(new@.subrange(0, k as int) =~= seq![self.source]);
        assert(new@.subrange(0, new@.len() as int) =~= new@);
    }

    /// Whether `other` agrees with this node on everything but the nodes it mentions.
    pub open spec fn same_except_ids(&self, other: &Self) -> bool {
        &&& self.source.1 == other.source.1
    }

    /// Replaces the node identifiers, in visiting order, with `new`.
    pub fn for_each_mut_id(&mut self, new: &[u32])
        requires
            new@.len() == old(self).ids().len(),
        ensures
            final(self).ids() == new@,
            old(self).same_except_ids(&*final(self)),
    {
        let mut k: usize = 0;
        self.source = Link(new[k], self.source.1);
        k = k + 1;
        assert(new@.subrange(0, k as int) =~= seq![self.source.0]);
        assert(new@.subrange(0, new@.len() as int) =~= new@);
    }
}

impl NumberWiden {
    /// The argument links this node reads, in visiting order.
    pub open spec fn arguments(&self) -> Seq<Link> {
        seq![self.source]
    }

    /// The node identifiers this node mentions, in visiting order.
    pub open spec fn ids(&self) -> Seq<u32> {
        seq![self.source.0]
    }

    /// Whether `other` agrees with this node on everything but its argument links.
    pub open spec fn same_except_arguments(&self, other: &Self) -> bool {
        true
    }

    /// Appends each argument link to `out`, in visiting order.
    pub fn for_each_argument(&self, out: &mut Vec<Link>)
        ensures
            final(out)@ == old(out)@ + self.arguments(),
    {
        let ghost start = out@;
        out.push(self.source);
        assert(out@ =~= start + seq![self.source]);
    }

    /// Appends each node identifier this node mentions to `out`, in visiting order.
    pub fn for_each_id(&self, out: &mut Vec<u32>)
        ensures
            final(out)@ == old(out)@ + self.ids(),
    {
        let ghost start = out@;
        out.push(self.source.0);
        assert(out@ =~= start + seq![self.source.0]);
    }

    /// Replaces the argument links, in visiting order, with `new`.
    pub fn for_each_mut_argument(&mut self, new: &[Link])
        requires
            new@.len() == old(self).arguments().len(),
        ensures
            final(self).arguments() == new@,
            old(self).same_except_arguments(&*final(self)),
    {
        let mut k: usize = 0;
        self.source = new[k];
        k = k + 1;
        assert(new@.subrange(0, k as int) =~= seq![self.source]);
        assert(new@.subrange(0, new@.len() as int) =~= new@);
    }

    /// Whether `other` agrees with this node on everything but the nodes it mentions.
    pub open spec fn same_except_ids(&self, other: &Self) -> bool {
        &&& self.source.1 == other.source.1
    }

    /// Replaces the node identifiers, in visiting order, with `new`.
    pub fn for_each_mut_id(&mut self, new: &[u32])
        requires
            new@.len() == old(self).ids().len(),
        ensures
            final(self).ids() == new@,
            old(self).same_except_ids(&*final(self)),
    {
        let mut k: usize = 0;
        self.source = Link(new[k], self.source.1);
        k = k + 1;
        assert(new@.subrange(0, k as int) =~= seq![self.source.0]);
        assert(new@.subrange(0, new@.len() as int) =~= new@);
    }
}

impl GlobalNew {
    /// The argument links this node reads, in visiting order.
    pub open spec fn arguments(&self) -> Seq<Link> {
        seq![self.initializer]
    }

    /// The node identifiers this node mentions, in visiting order.
    pub open spec fn ids(&self) -> Seq<u32> {
        seq![self.initializer.0]
    }

    /// Whether `other` agrees with this node on everything but its argument links.
    pub open spec fn same_except_arguments(&self, other: &Self) -> bool {
        true
    }

    /// Appends each argument link to `out`, in visiting order.
    pub fn for_each_argument(&self, out: &mut Vec<Link>)
        ensures
            final(out)@ == old(out)@ + self.arguments(),
    {
        let ghost start = out@;
        out.push(self.initializer);
        assert(out@ =~= start + seq![self.initializer]);
    }

    /// Appends each node identifier this node mentions to `out`, in visiting order.
    pub fn for_each_id(&self, out: &mut Vec<u32>)
        ensures
            final(out)@ == old(out)@ + self.ids(),
    {
        let ghost start = out@;
        out.push(self.initializer.0);
        assert(out@ =~= start + seq![self.initializer.0]);
    }

    /// Replaces the argument links, in visiting order, with `new`.
    pub fn for_each_mut_argument(&mut self, new: &[Link])
        requires
            new@.len() == old(self).arguments().len(),
        ensures
            final(self).arguments() == new@,
            old(self).same_except_arguments(&*final(self)),
    {
        let mut k: usize = 0;
        self.initializer = new[k];
        k = k + 1;
        assert(new@.subrange(0, k as int) =~= seq![self.initializer]);
        assert(new@.subrange(0, new@.len() as int) =~= new@);
    }

    /// Whether `other` agrees with this node on everything but the nodes it mentions.
    pub open spec fn same_except_ids(&self, other: &Self) -> bool {
        &&& self.initializer.1 == other.initializer.1
    }

    /// Replaces the node identifiers, in visiting order, with `new`.
    pub fn for_each_mut_id(&mut self, new: &[u32])
        requires
            new@.len() == old(self).ids().len(),
        ensures
            final(self).ids() == new@,
            old(self).same_except_ids(&*final(self)),
    {
        let mut k: usize = 0;
        self.initializer = Link(new[k], self.initializer.1);
        k = k + 1;
        assert(new@.subrange(0, k as int) =~= seq![self.initializer.0]);
        assert(new@.subrange(0, new@.len() as int) =~= new@);
    }
}

impl GlobalGet {
    /// The argument links this node reads, in visiting order.
    pub open spec fn arguments(&self) -> Seq<Link> {
        seq![self.source]
    }

    /// The node identifiers this node mentions, in visiting order.
    pub open spec fn ids(&self) -> Seq<u32> {
        seq![self.source.0]
    }

    /// Whether `other` agrees with this node on everything but its argument links.
    pub open spec fn same_except_arguments(&self, other: &Self) -> bool {
        true
    }

    /// Appends each argument link to `out`, in visiting order.
    pub fn for_each_argument(&self, out: &mut Vec<Link>)
        ensures
            final(out)@ == old(out)@ + self.arguments(),
    {
        let ghost start = out@;
        out.push(self.source);
        assert(out@ =~= start + seq![self.source]);
    }

    /// Appends each node identifier this node mentions to `out`, in visiting order.
    pub fn for_each_id(&self, out: &mut Vec<u32>)
        ensures
            final(out)@ == old(out)@ + self.ids(),
    {
        let ghost start = out@;
        out.push(self.source.0);
        assert(out@ =~= start + seq![self.source.0]);
    }

    /// Replaces the argument links, in visiting order, with `new`.
    pub fn for_each_mut_argument(&mut self, new: &[Link])
        requires
            new@.len() == old(self).arguments().len(),
        ensures
            final(self).arguments() == new@,
            old(self).same_except_arguments(&*final(self)),
    {
        let mut k: usize = 0;
        self.source = new[k];
        k = k + 1;
        assert(new@.subrange(0, k as int) =~= seq![self.source]);
        assert(new@.subrange(0, new@.len() as int) =~= new@);
    }

    /// Whether `other` agrees with this node on everything but the nodes it mentions.
    pub open spec fn same_except_ids(&self, other: &Self) -> bool {
        &&& self.source.1 == other.source.1
    }

    /// Replaces the node identifiers, in visiting order, with `new`.
    pub fn for_each_mut_id(&mut self, new: &[u32])
        requires
            new@.len() == old(self).ids().len(),
        ensures
            final(self).ids() == new@,
            old(self).same_except_ids(&*final(self)),
    {
        let mut k: usize = 0;
        self.source = Link(new[k], self.source.1);
        k = k + 1;
        assert(new@.subrange(0, k as int) =~= seq![self.source.0]);
        assert(new@.subrange(0, new@.len() as int) =~= new@);
    }
}

impl GlobalSet {
    /// The argument links this node reads, in visiting order.
    pub open spec fn arguments(&self) -> Seq<Link> {
        seq![self.destination] + seq![self.source]
    }

    /// The node identifiers this node mentions, in visiting order.
    pub open spec fn ids(&self) -> Seq<u32> {
        seq![self.destination.0] + seq![self.source.0]
    }

    /// Whether `other` agrees with this node on everything but its argument links.
    pub open spec fn same_except_arguments(&self, other: &Self) -> bool {
        true
    }

    /// Appends each argument link to `out`, in visiting order.
    pub fn for_each_argument(&self, out: &mut Vec<Link>)
        ensures
            final(out)@ == old(out)@ + self.arguments(),
    {
        let ghost start = out@;
        out.push(self.destination);
        assert(out@ =~= start + seq![self.destination]);
        out.push(self.source);
        assert(out@ =~= start + seq![self.destination] + seq![self.source]);
    }

    /// Appends each node identifier this node mentions to `out`, in visiting order.
    pub fn for_each_id(&self, out: &mut Vec<u32>)
        ensures
            final(out)@ == old(out)@ + self.ids(),
    {
        let ghost start = out@;
        out.push(self.destination.0);
        assert(out@ =~= start + seq![self.destination.0]);
        out.push(self.source.0);
        assert(out@ =~= start + seq![self.destination.0] + seq![self.source.0]);
    }

    /// Replaces the argument links, in visiting order, with `new`.
    pub fn for_each_mut_argument(&mut self, new: &[Link])
        requires
            new@.len() == old(self).arguments().len(),
        ensures
            final(self).arguments() == new@,
            old(self).same_except_arguments(&*final(self)),
    {
        let mut k: usize = 0;
        self.destination = new[k];
        k = k + 1;
        assert(new@.subrange(0, k as int) =~= seq![self.destination]);
        self.source = new[k];
        k = k + 1;
        assert(new@.subrange(0, k as int) =~= seq![self.destination] + seq![self.source]);
        assert(new@.subrange(0, new@.len() as int) =~= new@);
    }

    /// Whether `other` agrees with this node on everything but the nodes it mentions.
    pub open spec fn same_except_ids(&self, other: &Self) -> bool {
        &&& self.destination.1 == other.destination.1
        &&& self.source.1 == other.source.1
    }

    /// Replaces the node identifiers, in visiting order, with `new`.
    pub fn for_each_mut_id(&mut self, new: &[u32])
        requires
            new@.len() == old(self).ids().len(),
        ensures
            final(self).ids() == new@,
            old(self).same_except_ids(&*final(self)),
    {
        let mut k: usize = 0;
        self.destination = Link(new[k], self.destination.1);
        k = k + 1;
        assert(new@.subrange(0, k as int) =~= seq![self.destination.0]);
        self.source = Link(new[k], self.source.1);
        k = k + 1;
        assert(new@.subrange(0, k as int) =~= seq![self.destination.0] + seq![self.source.0]);
        assert(new@.subrange(0, new@.len() as int) =~= new@);
    }
}

impl TableNew {
    /// The argument links this node reads, in visiting order.
    pub open spec fn arguments(&self) -> Seq<Link> {
        table_links(self.initializer@)
    }

    /// The node identifiers this node mentions, in visiting order.
    pub open spec fn ids(&self) -> Seq<u32> {
        link_ids(table_links(self.initializer@))
    }

    /// Whether `other` agrees with this node on everything but its argument links.
    pub open spec fn same_except_arguments(&self, other: &Self) -> bool {
        &&& table_offsets(self.initializer@) == table_offsets(other.initializer@)
        &&& self.minimum == other.minimum
        &&& self.maximum == other.maximum
    }

    /// Appends each argument link to `out`, in visiting order.
    pub fn for_each_argument(&self, out: &mut Vec<Link>)
        ensures
            final(out)@ == old(out)@ + self.arguments(),
    {
        let ghost start = out@;
        push_table_links(out, &self.initializer);
        assert(out@ =~= start + table_links(self.initializer@));
    }

    /// Appends each node identifier this node mentions to `out`, in visiting order.
    pub fn for_each_id(&self, out: &mut Vec<u32>)
        ensures
            final(out)@ == old(out)@ + self.ids(),
    {
        let ghost start = out@;
        push_table_ids(out, &self.initializer);
        assert(out@ =~= start + link_ids(table_links(self.initializer@)));
    }

    /// Replaces the argument links, in visiting order, with `new`.
    pub fn for_each_mut_argument(&mut self, new: &[Link])
        requires
            new@.len() == old(self).arguments().len(),
        ensures
            final(self).arguments() == new@,
            old(self).same_except_arguments(&*final(self)),
    {
        let mut k: usize = 0;
        set_table_links(&mut self.initializer, new, k);
        k = k + self.initializer.len();
        assert(new@.subrange(0, k as int) =~= table_links(self.initializer@));
        assert(new@.subrange(0, new@.len() as int) =~= new@);
    }

    /// Whether `other` agrees with this node on everything but the nodes it mentions.
    pub open spec fn same_except_ids(&self, other: &Self) -> bool {
        &&& table_offsets(self.initializer@) == table_offsets(other.initializer@)
        &&& link_ports(table_links(self.initializer@)) == link_ports(table_links(other.initializer@))
        &&& self.minimum == other.minimum
        &&& self.maximum == other.maximum
    }

    /// Replaces the node identifiers, in visiting order, with `new`.
    pub fn for_each_mut_id(&mut self, new: &[u32])
        requires
            new@.len() == old(self).ids().len(),
        ensures
            final(self).ids() == new@,
            old(self).same_except_ids(&*final(self)),
    {
        let mut k: usize = 0;
        set_table_ids(&mut self.initializer, new, k);
        k = k + self.initializer.len();
        assert(new@.subrange(0, k as int) =~= link_ids(table_links(self.initializer@)));
        assert(new@.subrange(0, new@.len() as int) =~= new@);
    }
}

impl TableGet {
    /// The argument links this node reads, in visiting order.
    pub open spec fn arguments(&self) -> Seq<Link> {
        self.source.arguments()
    }

    /// The node identifiers this node mentions, in visiting order.
    pub open spec fn ids(&self) -> Seq<u32> {
        self.source.ids()
    }

    /// Whether `other` agrees with this node on everything but its argument links.
    pub open spec fn same_except_arguments(&self, other: &Self) -> bool {
        &&& self.key == other.key
    }

    /// Appends each argument link to `out`, in visiting order.
    pub fn for_each_argument(&self, out: &mut Vec<Link>)
        ensures
            final(out)@ == old(out)@ + self.arguments(),
    {
        let ghost start = out@;
        out.push(self.source.reference);
        out.push(self.source.offset);
        assert(out@ =~= start + self.source.arguments());
    }

    /// Appends each node identifier this node mentions to `out`, in visiting order.
    pub fn for_each_id(&self, out: &mut Vec<u32>)
        ensures
            final(out)@ == old(out)@ + self.ids(),
    {
        let ghost start = out@;
        out.push(self.source.reference.0);
        out.push(self.source.offset.0);
        assert(out@ =~= start + self.source.ids());
    }

    /// Replaces the argument links, in visiting order, with `new`.
    pub fn for_each_mut_argument(&mut self, new: &[Link])
        requires
            new@.len() == old(self).arguments().len(),
        ensures
            final(self).arguments() == new@,
            old(self).same_except_arguments(&*final(self)),
    {
        let mut k: usize = 0;
        self.source.reference = new[k];
        self.source.offset = new[k + 1];
        k = k + 2;
        assert(new@.subrange(0, k as int) =~= self.source.arguments());
        assert(new@.subrange(0, new@.len() as int) =~= new@);
    }

    /// Whether `other` agrees with this node on everything but the nodes it mentions.
    pub open spec fn same_except_ids(&self, other: &Self) -> bool {
        &&& self.source.reference.1 == other.source.reference.1 && self.source.offset.1 == other.source.offset.1
        &&& self.key == other.key
    }

    /// Replaces the node identifiers, in visiting order, with `new`.
    pub fn for_each_mut_id(&mut self, new: &[u32])
        requires
            new@.len() == old(self).ids().len(),
        ensures
            final(self).ids() == new@,
            old(self).same_except_ids(&*final(self)),
    {
        let mut k: usize = 0;
        self.source.reference = Link(new[k], self.source.reference.1);
        self.source.offset = Link(new[k + 1], self.source.offset.1);
        k = k + 2;
        assert(new@.subrange(0, k as int) =~= self.source.ids());
        assert(new@.subrange(0, new@.len() as int) =~= new@);
    }
}

impl TableSet {
    /// The argument links this node reads, in visiting order.
    pub open spec fn arguments(&self) -> Seq<Link> {
        self.destination.arguments() + seq![self.source]
    }

    /// The node identifiers this node mentions, in visiting order.
    pub open spec fn ids(&self) -> Seq<u32> {
        self.destination.ids() + seq![self.source.0]
    }

    /// Whether `other` agrees with this node on everything but its argument links.
    pub open spec fn same_except_arguments(&self, other: &Self) -> bool {
        true
    }

    /// Appends each argument link to `out`, in visiting order.
    pub fn for_each_argument(&self, out: &mut Vec<Link>)
        ensures
            final(out)@ == old(out)@ + self.arguments(),
    {
        let ghost start = out@;
        out.push(self.destination.reference);
        out.push(self.destination.offset);
        assert(out@ =~= start + self.destination.arguments());
        out.push(self.source);
        assert(out@ =~= start + self.destination.arguments() + seq![self.source]);
    }

    /// Appends each node identifier this node mentions to `out`, in visiting order.
    pub fn for_each_id(&self, out: &mut Vec<u32>)
        ensures
            final(out)@ == old(out)@ + self.ids(),
    {
        let ghost start = out@;
        out.push(self.destination.reference.0);
        out.push(self.destination.offset.0);
        assert(out@ =~= start + self.destination.ids());
        out.push(self.source.0);
        assert(out@ =~= start + self.destination.ids() + seq![self.source.0]);
    }

    /// Replaces the argument links, in visiting order, with `new`.
    pub fn for_each_mut_argument(&mut self, new: &[Link])
        requires
            new@.len() == old(self).arguments().len(),
        ensures
            final(self).arguments() == new@,
            old(self).same_except_arguments(&*final(self)),
    {
        let mut k: usize = 0;
        self.destination.reference = new[k];
        self.destination.offset = new[k + 1];
        k = k + 2;
        assert(new@.subrange(0, k as int) =~= self.destination.arguments());
        self.source = new[k];
        k = k + 1;
        assert(new@.subrange(0, k as int) =~= self.destination.arguments() + seq![self.source]);
        assert(new@.subrange(0, new@.len() as int) =~= new@);
    }

    /// Whether `other` agrees with this node on everything but the nodes it mentions.
    pub open spec fn same_except_ids(&self, other: &Self) -> bool {
        &&& self.destination.reference.1 == other.destination.reference.1 && self.destination.offset.1 == other.destination.offset.1
        &&& self.source.1 == other.source.1
    }

    /// Replaces the node identifiers, in visiting order, with `new`.
    pub fn for_each_mut_id(&mut self, new: &[u32])
        requires
            new@.len() == old(self).ids().len(),
        ensures
            final(self).ids() == new@,
            old(self).same_except_ids(&*final(self)),
    {
        let mut k: usize = 0;
        self.destination.reference = Link(new[k], self.destination.reference.1);
        self.destination.offset = Link(new[k + 1], self.destination.offset.1);
        k = k + 2;
        assert(new@.subrange(0, k as int) =~= self.destination.ids());
        self.source = Link(new[k], self.source.1);
        k = k + 1;
        assert(new@.subrange(0, k as int) =~= self.destination.ids() + seq![self.source.0]);
        assert(new@.subrange(0, new@.len() as int) =~= new@);
    }
}

impl TableSize {
    /// The argument links this node reads, in visiting order.
    pub open spec fn arguments(&self) -> Seq<Link> {
        seq![self.source]
    }

    /// The node identifiers this node mentions, in visiting order.
    pub open spec fn ids(&self) -> Seq<u32> {
        seq![self.source.0]
    }

    /// Whether `other` agrees with this node on everything but its argument links.
    pub open spec fn same_except_arguments(&self, other: &Self) -> bool {
        true
    }

    /// Appends each argument link to `out`, in visiting order.
    pub fn for_each_argument(&self, out: &mut Vec<Link>)
        ensures
            final(out)@ == old(out)@ + self.arguments(),
    {
        let ghost start = out@;
        out.push(self.source);
        assert(out@ =~= start + seq![self.source]);
    }

    /// Appends each node identifier this node mentions to `out`, in visiting order.
    pub fn for_each_id(&self, out: &mut Vec<u32>)
        ensures
            final(out)@ == old(out)@ + self.ids(),
    {
        let ghost start = out@;
        out.push(self.source.0);
        assert(out@ =~= start + seq![self.source.0]);
    }

    /// Replaces the argument links, in visiting order, with `new`.
    pub fn for_each_mut_argument(&mut self, new: &[Link])
        requires
            new@.len() == old(self).arguments().len(),
        ensures
            final(self).arguments() == new@,
            old(self).same_except_arguments(&*final(self)),
    {
        let mut k: usize = 0;
        self.source = new[k];
        k = k + 1;
        assert(new@.subrange(0, k as int) =~= seq![self.source]);
        assert(new@.subrange(0, new@.len() as int) =~= new@);
    }

    /// Whether `other` agrees with this node on everything but the nodes it mentions.
    pub open spec fn same_except_ids(&self, other: &Self) -> bool {
        &&& self.source.1 == other.source.1
    }

    /// Replaces the node identifiers, in visiting order, with `new`.
    pub fn for_each_mut_id(&mut self, new: &[u32])
        requires
            new@.len() == old(self).ids().len(),
        ensures
            final(self).ids() == new@,
            old(self).same_except_ids(&*final(self)),
    {
        let mut k: usize = 0;
        self.source = Link(new[k], self.source.1);
        k = k + 1;
        assert(new@.subrange(0, k as int) =~= seq![self.source.0]);
        assert(new@.subrange(0, new@.len() as int) =~= new@);
    }
}

impl TableGrow {
    /// The argument links this node reads, in visiting order.
    pub open spec fn arguments(&self) -> Seq<Link> {
        seq![self.destination] + seq![self.initializer] + seq![self.size]
    }

    /// The node identifiers this node mentions, in visiting order.
    pub open spec fn ids(&self) -> Seq<u32> {
        seq![self.destination.0] + seq![self.initializer.0] + seq![self.size.0]
    }

    /// Whether `other` agrees with this node on everything but its argument links.
    pub open spec fn same_except_arguments(&self, other: &Self) -> bool {
        true
    }

    /// Appends each argument link to `out`, in visiting order.
    pub fn for_each_argument(&self, out: &mut Vec<Link>)
        ensures
            final(out)@ == old(out)@ + self.arguments(),
    {
        let ghost start = out@;
        out.push(self.destination);
        assert(out@ =~= start + seq![self.destination]);
        out.push(self.initializer);
        assert(out@ =~= start + seq![self.destination] + seq![self.initializer]);
        out.push(self.size);
        assert(out@ =~= start + seq![self.destination] + seq![self.initializer] + seq![self.size]);
    }

    /// Appends each node identifier this node mentions to `out`, in visiting order.
    pub fn for_each_id(&self, out: &mut Vec<u32>)
        ensures
            final(out)@ == old(out)@ + self.ids(),
    {
        let ghost start = out@;
        out.push(self.destination.0);
        assert(out@ =~= start + seq![self.destination.0]);
        out.push(self.initializer.0);
        assert(out@ =~= start + seq![self.destination.0] + seq![self.initializer.0]);
        out.push(self.size.0);
        assert(out@ =~= start + seq![self.destination.0] + seq![self.initializer.0] + seq![self.size.0]);
    }

    /// Replaces the argument links, in visiting order, with `new`.
    pub fn for_each_mut_argument(&mut self, new: &[Link])
        requires
            new@.len() == old(self).arguments().len(),
        ensures
            final(self).arguments() == new@,
            old(self).same_except_arguments(&*final(self)),
    {
        let mut k: usize = 0;
        self.destination = new[k];
        k = k + 1;
        assert(new@.subrange(0, k as int) =~= seq![self.destination]);
        self.initializer = new[k];
        k = k + 1;
        assert(new@.subrange(0, k as int) =~= seq![self.destination] + seq![self.initializer]);
        self.size = new[k];
        k = k + 1;
        assert(new@.subrange(0, k as int) =~= seq![self.destination] + seq![self.initializer] + seq![self.size]);
        assert(new@.subrange(0, new@.len() as int) =~= new@);
    }

    /// Whether `other` agrees with this node on everything but the nodes it mentions.
    pub open spec fn same_except_ids(&self, other: &Self) -> bool {
        &&& self.destination.1 == other.destination.1
        &&& self.initializer.1 == other.initializer.1
        &&& self.size.1 == other.size.1
    }

    /// Replaces the node identifiers, in visiting order, with `new`.
    pub fn for_each_mut_id(&mut self, new: &[u32])
        requires
            new@.len() == old(self).ids().len(),
        ensures
            final(self).ids() == new@,
            old(self).same_except_ids(&*final(self)),
    {
        let mut k: usize = 0;
        self.destination = Link(new[k], self.destination.1);
        k = k + 1;
        assert(new@.subrange(0, k as int) =~= seq![self.destination.0]);
        self.initializer = Link(new[k], self.initializer.1);
        k = k + 1;
        assert(new@.subrange(0, k as int) =~= seq![self.destination.0] + seq![self.initializer.0]);
        self.size = Link(new[k], self.size.1);
        k = k + 1;
        assert(new@.subrange(0, k as int) =~= seq![self.destination.0] + seq![self.initializer.0] + seq![self.size.0]);
        assert(new@.subrange(0, new@.len() as int) =~= new@);
    }
}

impl TableFill {
    /// The argument links this node reads, in visiting order.
    pub open spec fn arguments(&self) -> Seq<Link> {
        self.destination.arguments() + seq![self.source] + seq![self.size]
    }

    /// The node identifiers this node mentions, in visiting order.
    pub open spec fn ids(&self) -> Seq<u32> {
        self.destination.ids() + seq![self.source.0] + seq![self.size.0]
    }

    /// Whether `other` agrees with this node on everything but its argument links.
    pub open spec fn same_except_arguments(&self, other: &Self) -> bool {
        true
    }

    /// Appends each argument link to `out`, in visiting order.
    pub fn for_each_argument(&self, out: &mut Vec<Link>)
        ensures
            final(out)@ == old(out)@ + self.arguments(),
    {
        let ghost start = out@;
        out.push(self.destination.reference);
        out.push(self.destination.offset);
        assert(out@ =~= start + self.destination.arguments());
        out.push(self.source);
        assert(out@ =~= start + self.destination.arguments() + seq![self.source]);
        out.push(self.size);
        assert(out@ =~= start + self.destination.arguments() + seq![self.source] + seq![self.size]);
    }

    /// Appends each node identifier this node mentions to `out`, in visiting order.
    pub fn for_each_id(&self, out: &mut Vec<u32>)
        ensures
            final(out)@ == old(out)@ + self.ids(),
    {
        let ghost start = out@;
        out.push(self.destination.reference.0);
        out.push(self.destination.offset.0);
        assert(out@ =~= start + self.destination.ids());
        out.push(self.source.0);
        assert(out@ =~= start + self.destination.ids() + seq![self.source.0]);
        out.push(self.size.0);
        assert(out@ =~= start + self.destination.ids() + seq![self.source.0] + seq![self.size.0]);
    }

    /// Replaces the argument links, in visiting order, with `new`.
    pub fn for_each_mut_argument(&mut self, new: &[Link])
        requires
            new@.len() == old(self).arguments().len(),
        ensures
            final(self).arguments() == new@,
            old(self).same_except_arguments(&*final(self)),
    {
        let mut k: usize = 0;
        self.destination.reference = new[k];
        self.destination.offset = new[k + 1];
        k = k + 2;
        assert(new@.subrange(0, k as int) =~= self.destination.arguments());
        self.source = new[k];
        k = k + 1;
        assert(new@.subrange(0, k as int) =~= self.destination.arguments() + seq![self.source]);
        self.size = new[k];
        k = k + 1;
        assert(new@.subrange(0, k as int) =~= self.destination.arguments() + seq![self.source] + seq![self.size]);
        assert(new@.subrange(0, new@.len() as int) =~= new@);
    }

    /// Whether `other` agrees with this node on everything but the nodes it mentions.
    pub open spec fn same_except_ids(&self, other: &Self) -> bool {
        &&& self.destination.reference.1 == other.destination.reference.1 && self.destination.offset.1 == other.destination.offset.1
        &&& self.source.1 == other.source.1
        &&& self.size.1 == other.size.1
    }

    /// Replaces the node identifiers, in visiting order, with `new`.
    pub fn for_each_mut_id(&mut self, new: &[u32])
        requires
            new@.len() == old(self).ids().len(),
        ensures
            final(self).ids() == new@,
            old(self).same_except_ids(&*final(self)),
    {
        let mut k: usize = 0;
        self.destination.reference = Link(new[k], self.destination.reference.1);
        self.destination.offset = Link(new[k + 1], self.destination.offset.1);
        k = k + 2;
        assert(new@.subrange(0, k as int) =~= self.destination.ids());
        self.source = Link(new[k], self.source.1);
        k = k + 1;
        assert(new@.subrange(0, k as int) =~= self.destination.ids() + seq![self.source.0]);
        self.size = Link(new[k], self.size.1);
        k = k + 1;
        assert(new@.subrange(0, k as int) =~= self.destination.ids() + seq![self.source.0] + seq![self.size.0]);
        assert(new@.subrange(0, new@.len() as int) =~= new@);
    }
}

impl TableCopy {
    /// The argument links this node reads, in visiting order.
    pub open spec fn arguments(&self) -> Seq<Link> {
        self.destination.arguments() + self.source.arguments() + seq![self.size]
    }

    /// The node identifiers this node mentions, in visiting order.
    pub open spec fn ids(&self) -> Seq<u32> {
        self.destination.ids() + self.source.ids() + seq![self.size.0]
    }

    /// Whether `other` agrees with this node on everything but its argument links.
    pub open spec fn same_except_arguments(&self, other: &Self) -> bool {
        true
    }

    /// Appends each argument link to `out`, in visiting order.
    pub fn for_each_argument(&self, out: &mut Vec<Link>)
        ensures
            final(out)@ == old(out)@ + self.arguments(),
    {
        let ghost start = out@;
        out.push(self.destination.reference);
        out.push(self.destination.offset);
        assert(out@ =~= start + self.destination.arguments());
        out.push(self.source.reference);
        out.push(self.source.offset);
        assert(out@ =~= start + self.destination.arguments() + self.source.arguments());
        out.push(self.size);
        assert(out@ =~= start + self.destination.arguments() + self.source.arguments() + seq![self.size]);
    }

    /// Appends each node identifier this node mentions to `out`, in visiting order.
    pub fn for_each_id(&self, out: &mut Vec<u32>)
        ensures
            final(out)@ == old(out)@ + self.ids(),
    {
        let ghost start = out@;
        out.push(self.destination.reference.0);
        out.push(self.destination.offset.0);
        assert(out@ =~= start + self.destination.ids());
        out.push(self.source.reference.0);
        out.push(self.source.offset.0);
        assert(out@ =~= start + self.destination.ids() + self.source.ids());
        out.push(self.size.0);
        assert(out@ =~= start + self.destination.ids() + self.source.ids() + seq![self.size.0]);
    }

    /// Replaces the argument links, in visiting order, with `new`.
    pub fn for_each_mut_argument(&mut self, new: &[Link])
        requires
            new@.len() == old(self).arguments().len(),
        ensures
            final(self).arguments() == new@,
            old(self).same_except_arguments(&*final(self)),
    {
        let mut k: usize = 0;
        self.destination.reference = new[k];
        self.destination.offset = new[k + 1];
        k = k + 2;
        assert(new@.subrange(0, k as int) =~= self.destination.arguments());
        self.source.reference = new[k];
        self.source.offset = new[k + 1];
        k = k + 2;
        assert(new@.subrange(0, k as int) =~= self.destination.arguments() + self.source.arguments());
        self.size = new[k];
        k = k + 1;
        assert(new@.subrange(0, k as int) =~= self.destination.arguments() + self.source.arguments() + seq![self.size]);
        assert(new@.subrange(0, new@.len() as int) =~= new@);
    }

    /// Whether `other` agrees with this node on everything but the nodes it mentions.
    pub open spec fn same_except_ids(&self, other: &Self) -> bool {
        &&& self.destination.reference.1 == other.destination.reference.1 && self.destination.offset.1 == other.destination.offset.1
        &&& self.source.reference.1 == other.source.reference.1 && self.source.offset.1 == other.source.offset.1
        &&& self.size.1 == other.size.1
    }

    /// Replaces the node identifiers, in visiting order, with `new`.
    pub fn for_each_mut_id(&mut self, new: &[u32])
        requires
            new@.len() == old(self).ids().len(),
        ensures
            final(self).ids() == new@,
            old(self).same_except_ids(&*final(self)),
    {
        let mut k: usize = 0;
        self.destination.reference = Link(new[k], self.destination.reference.1);
        self.destination.offset = Link(new[k + 1], self.destination.offset.1);
        k = k + 2;
        assert(new@.subrange(0, k as int) =~= self.destination.ids());
        self.source.reference = Link(new[k], self.source.reference.1);
        self.source.offset = Link(new[k + 1], self.source.offset.1);
        k = k + 2;
        assert(new@.subrange(0, k as int) =~= self.destination.ids() + self.source.ids());
        self.size = Link(new[k], self.size.1);
        k = k + 1;
        assert(new@.subrange(0, k as int) =~= self.destination.ids() + self.source.ids() + seq![self.size.0]);
        assert(new@.subrange(0, new@.len() as int) =~= new@);
    }
}

impl TableDrop {
    /// The argument links this node reads, in visiting order.
    pub open spec fn arguments(&self) -> Seq<Link> {
        seq![self.source]
    }

    /// The node identifiers this node mentions, in visiting order.
    pub open spec fn ids(&self) -> Seq<u32> {
        seq![self.source.0]
    }

    /// Whether `other` agrees with this node on everything but its argument links.
    pub open spec fn same_except_arguments(&self, other: &Self) -> bool {
        true
    }

    /// Appends each argument link to `out`, in visiting order.
    pub fn for_each_argument(&self, out: &mut Vec<Link>)
        ensures
            final(out)@ == old(out)@ + self.arguments(),
    {
        let ghost start = out@;
        out.push(self.source);
        assert(out@ =~= start + seq![self.source]);
    }

    /// Appends each node identifier this node mentions to `out`, in visiting order.
    pub fn for_each_id(&self, out: &mut Vec<u32>)
        ensures
            final(out)@ == old(out)@ + self.ids(),
    {
        let ghost start = out@;
        out.push(self.source.0);
        assert(out@ =~= start + seq![self.source.0]);
    }

    /// Replaces the argument links, in visiting order, with `new`.
    pub fn for_each_mut_argument(&mut self, new: &[Link])
        requires
            new@.len() == old(self).arguments().len(),
        ensures
            final(self).arguments() == new@,
            old(self).same_except_arguments(&*final(self)),
    {
        let mut k: usize = 0;
        self.source = new[k];
        k = k + 1;
        assert(new@.subrange(0, k as int) =~= seq![self.source]);
        assert(new@.subrange(0, new@.len() as int) =~= new@);
    }

    /// Whether `other` agrees with this node on everything but the nodes it mentions.
    pub open spec fn same_except_ids(&self, other: &Self) -> bool {
        &&& self.source.1 == other.source.1
    }

    /// Replaces the node identifiers, in visiting order, with `new`.
    pub fn for_each_mut_id(&mut self, new: &[u32])
        requires
            new@.len() == old(self).ids().len(),
        ensures
            final(self).ids() == new@,
            old(self).same_except_ids(&*final(self)),
    {
        let mut k: usize = 0;
        self.source = Link(new[k], self.source.1);
        k = k + 1;
        assert(new@.subrange(0, k as int) =~= seq![self.source.0]);
        assert(new@.subrange(0, new@.len() as int) =~= new@);
    }
}

impl MemoryNew {
    /// The argument links this node reads, in visiting order.
    pub open spec fn arguments(&self) -> Seq<Link> {
        Seq::empty()
    }

    /// The node identifiers this node mentions, in visiting order.
    pub open spec fn ids(&self) -> Seq<u32> {
        Seq::empty()
    }

    /// Whether `other` agrees with this node on everything but its argument links.
    pub open spec fn same_except_arguments(&self, other: &Self) -> bool {
        &&& self.initializer == other.initializer
        &&& self.minimum == other.minimum
        &&& self.maximum == other.maximum
    }

    /// Appends each argument link to `out`, in visiting order.
    pub fn for_each_argument(&self, out: &mut Vec<Link>)
        ensures
            final(out)@ == old(out)@ + self.arguments(),
    {
        let ghost start = out@;
    }

    /// Appends each node identifier this node mentions to `out`, in visiting order.
    pub fn for_each_id(&self, out: &mut Vec<u32>)
        ensures
            final(out)@ == old(out)@ + self.ids(),
    {
        let ghost start = out@;
    }

    /// Replaces the argument links, in visiting order, with `new`.
    pub fn for_each_mut_argument(&mut self, new: &[Link])
        requires
            new@.len() == old(self).arguments().len(),
        ensures
            final(self).arguments() == new@,
            old(self).same_except_arguments(&*final(self)),
    {
    }

    /// Whether `other` agrees with this node on everything but the nodes it mentions.
    pub open spec fn same_except_ids(&self, other: &Self) -> bool {
        &&& self.initializer == other.initializer
        &&& self.minimum == other.minimum
        &&& self.maximum == other.maximum
    }

    /// Replaces the node identifiers, in visiting order, with `new`.
    pub fn for_each_mut_id(&mut self, new: &[u32])
        requires
            new@.len() == old(self).ids().len(),
        ensures
            final(self).ids() == new@,
            old(self).same_except_ids(&*final(self)),
    {
    }
}

impl MemoryLoad {
    /// The argument links this node reads, in visiting order.
    pub open spec fn arguments(&self) -> Seq<Link> {
        self.source.arguments()
    }

    /// The node identifiers this node mentions, in visiting order.
    pub open spec fn ids(&self) -> Seq<u32> {
        self.source.ids()
    }

    /// Whether `other` agrees with this node on everything but its argument links.
    pub open spec fn same_except_arguments(&self, other: &Self) -> bool {
        &&& self.offset == other.offset
        &&& self.kind == other.kind
    }

    /// Appends each argument link to `out`, in visiting order.
    pub fn for_each_argument(&self, out: &mut Vec<Link>)
        ensures
            final(out)@ == old(out)@ + self.arguments(),
    {
        let ghost start = out@;
        out.push(self.source.reference);
        out.push(self.source.offset);
        assert(out@ =~= start + self.source.arguments());
    }

    /// Appends each node identifier this node mentions to `out`, in visiting order.
    pub fn for_each_id(&self, out: &mut Vec<u32>)
        ensures
            final(out)@ == old(out)@ + self.ids(),
    {
        let ghost start = out@;
        out.push(self.source.reference.0);
        out.push(self.source.offset.0);
        assert(out@ =~= start + self.source.ids());
    }

    /// Replaces the argument links, in visiting order, with `new`.
    pub fn for_each_mut_argument(&mut self, new: &[Link])
        requires
            new@.len() == old(self).arguments().len(),
        ensures
            final(self).arguments() == new@,
            old(self).same_except_arguments(&*final(self)),
    {
        let mut k: usize = 0;
        self.source.reference = new[k];
        self.source.offset = new[k + 1];
        k = k + 2;
        assert(new@.subrange(0, k as int) =~= self.source.arguments());
        assert(new@.subrange(0, new@.len() as int) =~= new@);
    }

    /// Whether `other` agrees with this node on everything but the nodes it mentions.
    pub open spec fn same_except_ids(&self, other: &Self) -> bool {
        &&& self.source.reference.1 == other.source.reference.1 && self.source.offset.1 == other.source.offset.1
        &&& self.offset == other.offset
        &&& self.kind == other.kind
    }

    /// Replaces the node identifiers, in visiting order, with `new`.
    pub fn for_each_mut_id(&mut self, new: &[u32])
        requires
            new@.len() == old(self).ids().len(),
        ensures
            final(self).ids() == new@,
            old(self).same_except_ids(&*final(self)),
    {
        let mut k: usize = 0;
        self.source.reference = Link(new[k], self.source.reference.1);
        self.source.offset = Link(new[k + 1], self.source.offset.1);
        k = k + 2;
        assert(new@.subrange(0, k as int) =~= self.source.ids());
        assert(new@.subrange(0, new@.len() as int) =~= new@);
    }
}

impl MemoryStore {
    /// The argument links this node reads, in visiting order.
    pub open spec fn arguments(&self) -> Seq<Link> {
        self.destination.arguments() + seq![self.source]
    }

    /// The node identifiers this node mentions, in visiting order.
    pub open spec fn ids(&self) -> Seq<u32> {
        self.destination.ids() + seq![self.source.0]
    }

    /// Whether `other` agrees with this node on everything but its argument links.
    pub open spec fn same_except_arguments(&self, other: &Self) -> bool {
        &&& self.offset == other.offset
        &&& self.kind == other.kind
    }

    /// Appends each argument link to `out`, in visiting order.
    pub fn for_each_argument(&self, out: &mut Vec<Link>)
        ensures
            final(out)@ == old(out)@ + self.arguments(),
    {
        let ghost start = out@;
        out.push(self.destination.reference);
        out.push(self.destination.offset);
        assert(out@ =~= start + self.destination.arguments());
        out.push(self.source);
        assert(out@ =~= start + self.destination.arguments() + seq![self.source]);
    }

    /// Appends each node identifier this node mentions to `out`, in visiting order.
    pub fn for_each_id(&self, out: &mut Vec<u32>)
        ensures
            final(out)@ == old(out)@ + self.ids(),
    {
        let ghost start = out@;
        out.push(self.destination.reference.0);
        out.push(self.destination.offset.0);
        assert(out@ =~= start + self.destination.ids());
        out.push(self.source.0);
        assert(out@ =~= start + self.destination.ids() + seq![self.source.0]);
    }

    /// Replaces the argument links, in visiting order, with `new`.
    pub fn for_each_mut_argument(&mut self, new: &[Link])
        requires
            new@.len() == old(self).arguments().len(),
        ensures
            final(self).arguments() == new@,
            old(self).same_except_arguments(&*final(self)),
    {
        let mut k: usize = 0;
        self.destination.reference = new[k];
        self.destination.offset = new[k + 1];
        k = k + 2;
        assert(new@.subrange(0, k as int) =~= self.destination.arguments());
        self.source = new[k];
        k = k + 1;
        assert(new@.subrange(0, k as int) =~= self.destination.arguments() + seq![self.source]);
        assert(new@.subrange(0, new@.len() as int) =~= new@);
    }

    /// Whether `other` agrees with this node on everything but the nodes it mentions.
    pub open spec fn same_except_ids(&self, other: &Self) -> bool {
        &&& self.destination.reference.1 == other.destination.reference.1 && self.destination.offset.1 == other.destination.offset.1
        &&& self.source.1 == other.source.1
        &&& self.offset == other.offset
        &&& self.kind == other.kind
    }

    /// Replaces the node identifiers, in visiting order, with `new`.
    pub fn for_each_mut_id(&mut self, new: &[u32])
        requires
            new@.len() == old(self).ids().len(),
        ensures
            final(self).ids() == new@,
            old(self).same_except_ids(&*final(self)),
    {
        let mut k: usize = 0;
        self.destination.reference = Link(new[k], self.destination.reference.1);
        self.destination.offset = Link(new[k + 1], self.destination.offset.1);
        k = k + 2;
        assert(new@.subrange(0, k as int) =~= self.destination.ids());
        self.source = Link(new[k], self.source.1);
        k = k + 1;
        assert(new@.subrange(0, k as int) =~= self.destination.ids() + seq![self.source.0]);
        assert(new@.subrange(0, new@.len() as int) =~= new@);
    }
}

impl MemorySize {
    /// The argument links this node reads, in visiting order.
    pub open spec fn arguments(&self) -> Seq<Link> {
        seq![self.source]
    }

    /// The node identifiers this node mentions, in visiting order.
    pub open spec fn ids(&self) -> Seq<u32> {
        seq![self.source.0]
    }

    /// Whether `other` agrees with this node on everything but its argument links.
    pub open spec fn same_except_arguments(&self, other: &Self) -> bool {
        true
    }

    /// Appends each argument link to `out`, in visiting order.
    pub fn for_each_argument(&self, out: &mut Vec<Link>)
        ensures
            final(out)@ == old(out)@ + self.arguments(),
    {
        let ghost start = out@;
        out.push(self.source);
        assert(out@ =~= start + seq![self.source]);
    }

    /// Appends each node identifier this node mentions to `out`, in visiting order.
    pub fn for_each_id(&self, out: &mut Vec<u32>)
        ensures
            final(out)@ == old(out)@ + self.ids(),
    {
        let ghost start = out@;
        out.push(self.source.0);
        assert(out@ =~= start + seq![self.source.0]);
    }

    /// Replaces the argument links, in visiting order, with `new`.
    pub fn for_each_mut_argument(&mut self, new: &[Link])
        requires
            new@.len() == old(self).arguments().len(),
        ensures
            final(self).arguments() == new@,
            old(self).same_except_arguments(&*final(self)),
    {
        let mut k: usize = 0;
        self.source = new[k];
        k = k + 1;
        assert(new@.subrange(0, k as int) =~= seq![self.source]);
        assert(new@.subrange(0, new@.len() as int) =~= new@);
    }

    /// Whether `other` agrees with this node on everything but the nodes it mentions.
    pub open spec fn same_except_ids(&self, other: &Self) -> bool {
        &&& self.source.1 == other.source.1
    }

    /// Replaces the node identifiers, in visiting order, with `new`.
    pub fn for_each_mut_id(&mut self, new: &[u32])
        requires
            new@.len() == old(self).ids().len(),
        ensures
            final(self).ids() == new@,
            old(self).same_except_ids(&*final(self)),
    {
        let mut k: usize = 0;
        self.source = Link(new[k], self.source.1);
        k = k + 1;
        assert(new@.subrange(0, k as int) =~= seq![self.source.0]);
        assert(new@.subrange(0, new@.len() as int) =~= new@);
    }
}

impl MemoryGrow {
    /// The argument links this node reads, in visiting order.
    pub open spec fn arguments(&self) -> Seq<Link> {
        seq![self.destination] + seq![self.size]
    }

    /// The node identifiers this node mentions, in visiting order.
    pub open spec fn ids(&self) -> Seq<u32> {
        seq![self.destination.0] + seq![self.size.0]
    }

    /// Whether `other` agrees with this node on everything but its argument links.
    pub open spec fn same_except_arguments(&self, other: &Self) -> bool {
        true
    }

    /// Appends each argument link to `out`, in visiting order.
    pub fn for_each_argument(&self, out: &mut Vec<Link>)
        ensures
            final(out)@ == old(out)@ + self.arguments(),
    {
        let ghost start = out@;
        out.push(self.destination);
        assert(out@ =~= start + seq![self.destination]);
        out.push(self.size);
        assert(out@ =~= start + seq![self.destination] + seq![self.size]);
    }

    /// Appends each node identifier this node mentions to `out`, in visiting order.
    pub fn for_each_id(&self, out: &mut Vec<u32>)
        ensures
            final(out)@ == old(out)@ + self.ids(),
    {
        let ghost start = out@;
        out.push(self.destination.0);
        assert(out@ =~= start + seq![self.destination.0]);
        out.push(self.size.0);
        assert(out@ =~= start + seq![self.destination.0] + seq![self.size.0]);
    }

    /// Replaces the argument links, in visiting order, with `new`.
    pub fn for_each_mut_argument(&mut self, new: &[Link])
        requires
            new@.len() == old(self).arguments().len(),
        ensures
            final(self).arguments() == new@,
            old(self).same_except_arguments(&*final(self)),
    {
        let mut k: usize = 0;
        self.destination = new[k];
        k = k + 1;
        assert(new@.subrange(0, k as int) =~= seq![self.destination]);
        self.size = new[k];
        k = k + 1;
        assert(new@.subrange(0, k as int) =~= seq![self.destination] + seq![self.size]);
        assert(new@.subrange(0, new@.len() as int) =~= new@);
    }

    /// Whether `other` agrees with this node on everything but the nodes it mentions.
    pub open spec fn same_except_ids(&self, other: &Self) -> bool {
        &&& self.destination.1 == other.destination.1
        &&& self.size.1 == other.size.1
    }

    /// Replaces the node identifiers, in visiting order, with `new`.
    pub fn for_each_mut_id(&mut self, new: &[u32])
        requires
            new@.len() == old(self).ids().len(),
        ensures
            final(self).ids() == new@,
            old(self).same_except_ids(&*final(self)),
    {
        let mut k: usize = 0;
        self.destination = Link(new[k], self.destination.1);
        k = k + 1;
        assert(new@.subrange(0, k as int) =~= seq![self.destination.0]);
        self.size = Link(new[k], self.size.1);
        k = k + 1;
        assert(new@.subrange(0, k as int) =~= seq![self.destination.0] + seq![self.size.0]);
        assert(new@.subrange(0, new@.len() as int) =~= new@);
    }
}

impl MemoryFill {
    /// The argument links this node reads, in visiting order.
    pub open spec fn arguments(&self) -> Seq<Link> {
        self.destination.arguments() + seq![self.byte] + seq![self.size]
    }

    /// The node identifiers this node mentions, in visiting order.
    pub open spec fn ids(&self) -> Seq<u32> {
        self.destination.ids() + seq![self.byte.0] + seq![self.size.0]
    }

    /// Whether `other` agrees with this node on everything but its argument links.
    pub open spec fn same_except_arguments(&self, other: &Self) -> bool {
        true
    }

    /// Appends each argument link to `out`, in visiting order.
    pub fn for_each_argument(&self, out: &mut Vec<Link>)
        ensures
            final(out)@ == old(out)@ + self.arguments(),
    {
        let ghost start = out@;
        out.push(self.destination.reference);
        out.push(self.destination.offset);
        assert(out@ =~= start + self.destination.arguments());
        out.push(self.byte);
        assert(out@ =~= start + self.destination.arguments() + seq![self.byte]);
        out.push(self.size);
        assert(out@ =~= start + self.destination.arguments() + seq![self.byte] + seq![self.size]);
    }

    /// Appends each node identifier this node mentions to `out`, in visiting order.
    pub fn for_each_id(&self, out: &mut Vec<u32>)
        ensures
            final(out)@ == old(out)@ + self.ids(),
    {
        let ghost start = out@;
        out.push(self.destination.reference.0);
        out.push(self.destination.offset.0);
        assert(out@ =~= start + self.destination.ids());
        out.push(self.byte.0);
        assert(out@ =~= start + self.destination.ids() + seq![self.byte.0]);
        out.push(self.size.0);
        assert(out@ =~= start + self.destination.ids() + seq![self.byte.0] + seq![self.size.0]);
    }

    /// Replaces the argument links, in visiting order, with `new`.
    pub fn for_each_mut_argument(&mut self, new: &[Link])
        requires
            new@.len() == old(self).arguments().len(),
        ensures
            final(self).arguments() == new@,
            old(self).same_except_arguments(&*final(self)),
    {
        let mut k: usize = 0;
        self.destination.reference = new[k];
        self.destination.offset = new[k + 1];
        k = k + 2;
        assert(new@.subrange(0, k as int) =~= self.destination.arguments());
        self.byte = new[k];
        k = k + 1;
        assert(new@.subrange(0, k as int) =~= self.destination.arguments() + seq![self.byte]);
        self.size = new[k];
        k = k + 1;
        assert(new@.subrange(0, k as int) =~= self.destination.arguments() + seq![self.byte] + seq![self.size]);
        assert(new@.subrange(0, new@.len() as int) =~= new@);
    }

    /// Whether `other` agrees with this node on everything but the nodes it mentions.
    pub open spec fn same_except_ids(&self, other: &Self) -> bool {
        &&& self.destination.reference.1 == other.destination.reference.1 && self.destination.offset.1 == other.destination.offset.1
        &&& self.byte.1 == other.byte.1
        &&& self.size.1 == other.size.1
    }

    /// Replaces the node identifiers, in visiting order, with `new`.
    pub fn for_each_mut_id(&mut self, new: &[u32])
        requires
            new@.len() == old(self).ids().len(),
        ensures
            final(self).ids() == new@,
            old(self).same_except_ids(&*final(self)),
    {
        let mut k: usize = 0;
        self.destination.reference = Link(new[k], self.destination.reference.1);
        self.destination.offset = Link(new[k + 1], self.destination.offset.1);
        k = k + 2;
        assert(new@.subrange(0, k as int) =~= self.destination.ids());
        self.byte = Link(new[k], self.byte.1);
        k = k + 1;
        assert(new@.subrange(0, k as int) =~= self.destination.ids() + seq![self.byte.0]);
        self.size = Link(new[k], self.size.1);
        k = k + 1;
        assert(new@.subrange(0, k as int) =~= self.destination.ids() + seq![self.byte.0] + seq![self.size.0]);
        assert(new@.subrange(0, new@.len() as int) =~= new@);
    }
}

impl MemoryCopy {
    /// The argument links this node reads, in visiting order.
    pub open spec fn arguments(&self) -> Seq<Link> {
        self.destination.arguments() + self.source.arguments() + seq![self.size]
    }

    /// The node identifiers this node mentions, in visiting order.
    pub open spec fn ids(&self) -> Seq<u32> {
        self.destination.ids() + self.source.ids() + seq![self.size.0]
    }

    /// Whether `other` agrees with this node on everything but its argument links.
    pub open spec fn same_except_arguments(&self, other: &Self) -> bool {
        true
    }

    /// Appends each argument link to `out`, in visiting order.
    pub fn for_each_argument(&self, out: &mut Vec<Link>)
        ensures
            final(out)@ == old(out)@ + self.arguments(),
    {
        let ghost start = out@;
        out.push(self.destination.reference);
        out.push(self.destination.offset);
        assert(out@ =~= start + self.destination.arguments());
        out.push(self.source.reference);
        out.push(self.source.offset);
        assert(out@ =~= start + self.destination.arguments() + self.source.arguments());
        out.push(self.size);
        assert(out@ =~= start + self.destination.arguments() + self.source.arguments() + seq![self.size]);
    }

    /// Appends each node identifier this node mentions to `out`, in visiting order.
    pub fn for_each_id(&self, out: &mut Vec<u32>)
        ensures
            final(out)@ == old(out)@ + self.ids(),
    {
        let ghost start = out@;
        out.push(self.destination.reference.0);
        out.push(self.destination.offset.0);
        assert(out@ =~= start + self.destination.ids());
        out.push(self.source.reference.0);
        out.push(self.source.offset.0);
        assert(out@ =~= start + self.destination.ids() + self.source.ids());
        out.push(self.size.0);
        assert(out@ =~= start + self.destination.ids() + self.source.ids() + seq![self.size.0]);
    }

    /// Replaces the argument links, in visiting order, with `new`.
    pub fn for_each_mut_argument(&mut self, new: &[Link])
        requires
            new@.len() == old(self).arguments().len(),
        ensures
            final(self).arguments() == new@,
            old(self).same_except_arguments(&*final(self)),
    {
        let mut k: usize = 0;
        self.destination.reference = new[k];
        self.destination.offset = new[k + 1];
        k = k + 2;
        assert(new@.subrange(0, k as int) =~= self.destination.arguments());
        self.source.reference = new[k];
        self.source.offset = new[k + 1];
        k = k + 2;
        assert(new@.subrange(0, k as int) =~= self.destination.arguments() + self.source.arguments());
        self.size = new[k];
        k = k + 1;
        assert(new@.subrange(0, k as int) =~= self.destination.arguments() + self.source.arguments() + seq![self.size]);
        assert(new@.subrange(0, new@.len() as int) =~= new@);
    }

    /// Whether `other` agrees with this node on everything but the nodes it mentions.
    pub open spec fn same_except_ids(&self, other: &Self) -> bool {
        &&& self.destination.reference.1 == other.destination.reference.1 && self.destination.offset.1 == other.destination.offset.1
        &&& self.source.reference.1 == other.source.reference.1 && self.source.offset.1 == other.source.offset.1
        &&& self.size.1 == other.size.1
    }

    /// Replaces the node identifiers, in visiting order, with `new`.
    pub fn for_each_mut_id(&mut self, new: &[u32])
        requires
            new@.len() == old(self).ids().len(),
        ensures
            final(self).ids() == new@,
            old(self).same_except_ids(&*final(self)),
    {
        let mut k: usize = 0;
        self.destination.reference = Link(new[k], self.destination.reference.1);
        self.destination.offset = Link(new[k + 1], self.destination.offset.1);
        k = k + 2;
        assert(new@.subrange(0, k as int) =~= self.destination.ids());
        self.source.reference = Link(new[k], self.source.reference.1);
        self.source.offset = Link(new[k + 1], self.source.offset.1);
        k = k + 2;
        assert(new@.subrange(0, k as int) =~= self.destination.ids() + self.source.ids());
        self.size = Link(new[k], self.size.1);
        k = k + 1;
        assert(new@.subrange(0, k as int) =~= self.destination.ids() + self.source.ids() + seq![self.size.0]);
        assert(new@.subrange(0, new@.len() as int) =~= new@);
    }
}

impl MemoryDrop {
    /// The argument links this node reads, in visiting order.
    pub open spec fn arguments(&self) -> Seq<Link> {
        seq![self.source]
    }

    /// The node identifiers this node mentions, in visiting order.
    pub open spec fn ids(&self) -> Seq<u32> {
        seq![self.source.0]
    }

    /// Whether `other` agrees with this node on everything but its argument links.
    pub open spec fn same_except_arguments(&self, other: &Self) -> bool {
        true
    }

    /// Appends each argument link to `out`, in visiting order.
    pub fn for_each_argument(&self, out: &mut Vec<Link>)
        ensures
            final(out)@ == old(out)@ + self.arguments(),
    {
        let ghost start = out@;
        out.push(self.source);
        assert(out@ =~= start + seq![self.source]);
    }

    /// Appends each node identifier this node mentions to `out`, in visiting order.
    pub fn for_each_id(&self, out: &mut Vec<u32>)
        ensures
            final(out)@ == old(out)@ + self.ids(),
    {
        let ghost start = out@;
        out.push(self.source.0);
        assert(out@ =~= start + seq![self.source.0]);
    }

    /// Replaces the argument links, in visiting order, with `new`.
    pub fn for_each_mut_argument(&mut self, new: &[Link])
        requires
            new@.len() == old(self).arguments().len(),
        ensures
            final(self).arguments() == new@,
            old(self).same_except_arguments(&*final(self)),
    {
        let mut k: usize = 0;
        self.source = new[k];
        k = k + 1;
        assert(new@.subrange(0, k as int) =~= seq![self.source]);
        assert(new@.subrange(0, new@.len() as int) =~= new@);
    }

    /// Whether `other` agrees with this node on everything but the nodes it mentions.
    pub open spec fn same_except_ids(&self, other: &Self) -> bool {
        &&& self.source.1 == other.source.1
    }

    /// Replaces the node identifiers, in visiting order, with `new`.
    pub fn for_each_mut_id(&mut self, new: &[u32])
        requires
            new@.len() == old(self).ids().len(),
        ensures
            final(self).ids() == new@,
            old(self).same_except_ids(&*final(self)),
    {
        let mut k: usize = 0;
        self.source = Link(new[k], self.source.1);
        k = k + 1;
        assert(new@.subrange(0, k as int) =~= seq![self.source.0]);
        assert(new@.subrange(0, new@.len() as int) =~= new@);
    }
}

} // verus!
