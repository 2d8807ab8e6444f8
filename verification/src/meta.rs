use vstd::prelude::*;

use crate::text::{seq_char_lt, str_eq, str_lt};

verus! {

/// One metadata leaf: the text found under `<cat><attr>value</attr></cat>`.
#[derive(Debug, Clone)]
pub struct MetaEntry {
    pub attr: String,
    pub cat: String,
    pub value: String,
}

/// The mathematical shape of one metadata entry.
pub struct MetaEntryV {
    pub attr: Seq<char>,
    pub cat: Seq<char>,
    pub value: Seq<char>,
}

impl View for MetaEntry {
    type V = MetaEntryV;

    open spec fn view(&self) -> MetaEntryV {
        MetaEntryV { attr: self.attr@, cat: self.cat@, value: self.value@ }
    }
}

/// Lexicographic order on the (attribute, category) key pair.
pub open spec fn key_lt(a1: Seq<char>, c1: Seq<char>, a2: Seq<char>, c2: Seq<char>) -> bool {
    seq_char_lt(a1, a2) || (a1 == a2 && seq_char_lt(c1, c2))
}

/// Where inserting the pair (`attr`, `cat`) with `value` into the ordered
/// entry list `es` leads: an entry with the same key is overwritten, a new
/// key is placed before the first entry whose key is not smaller.
pub open spec fn meta_insert(
    es: Seq<MetaEntryV>,
    attr: Seq<char>,
    cat: Seq<char>,
    value: Seq<char>,
) -> Seq<MetaEntryV>
    decreases es.len(),
{
    let e = MetaEntryV { attr, cat, value };
    if es.len() == 0 {
        seq![e]
    } else if key_lt(es[0].attr, es[0].cat, attr, cat) {
        seq![es[0]] + meta_insert(es.skip(1), attr, cat, value)
    } else if es[0].attr == attr && es[0].cat == cat {
        seq![e] + es.skip(1)
    } else {
        seq![e] + es
    }
}

/// A metadata block: the leaf values of one `meta` element, keyed by the
/// (attribute tag, category tag) pair, held in increasing key order.
#[derive(Debug, Clone)]
pub struct MetaMap {
    pub entries: Vec<MetaEntry>,
}

impl View for MetaMap {
    type V = Seq<MetaEntryV>;

    open spec fn view(&self) -> Seq<MetaEntryV> {
        self.entries@.map_values(|e: MetaEntry| e@)
    }
}

impl MetaMap {
    /// An empty metadata block.
    pub fn new() -> (r: MetaMap)
        ensures
            r@ == Seq::<MetaEntryV>::empty(),
    {
        let r = MetaMap { entries: Vec::new() };
        proof {
            assert(r@ =~= Seq::<MetaEntryV>::empty());
        }
        r
    }

    /// How many entries the block holds.
    pub fn len(&self) -> (n: usize)
        ensures
            n == self@.len(),
    {
        self.entries.len()
    }

    /// Stores `value` under the key (`attr`, `cat`), replacing any earlier
    /// value of that key and keeping the entries in key order.
    pub fn insert(&mut self, attr: String, cat: String, value: String)
        ensures
            final(self)@ == meta_insert(old(self)@, attr@, cat@, value@),
    {
        let ghost full = self@;
        let mut i: usize = 0;
        let n = self.entries.len();
        proof {
            assert(full.skip(0) =~= full);
        }
        while i < n
            invariant
                i <= n,
                n == self.entries.len(),
                old(self)@ == full,
                self@ == full,
                self@.len() == full.len(),
                meta_insert(full, attr@, cat@, value@) == full.take(i as int) + meta_insert(
                    full.skip(i as int),
                    attr@,
                    cat@,
                    value@,
                ),
                forall|j: int|
                    0 <= j < i ==> key_lt(full[j].attr, full[j].cat, attr@, cat@),
            decreases n - i,
        {
            let here_attr_lt = str_lt(self.entries[i].attr.as_str(), attr.as_str());
            let here_attr_eq = str_eq(self.entries[i].attr.as_str(), attr.as_str());
            let here_cat_lt = str_lt(self.entries[i].cat.as_str(), cat.as_str());
            let here_cat_eq = str_eq(self.entries[i].cat.as_str(), cat.as_str());
            proof {
                assert(full[i as int] == self.entries@[i as int]@);
            }
            if here_attr_lt || (here_attr_eq && here_cat_lt) {
                proof {
                    let suf = full.skip(i as int);
                    assert(suf[0] == full[i as int]);
                    assert(suf.skip(1) =~= full.skip(i + 1));
                    assert(full.take(i as int) + (seq![suf[0]] + meta_insert(
                        full.skip(i + 1),
                        attr@,
                        cat@,
                        value@,
                    )) =~= full.take(i + 1) + meta_insert(full.skip(i + 1), attr@, cat@, value@));
                }
                i += 1;
            } else if here_attr_eq && here_cat_eq {
                let e = MetaEntry { attr, cat, value };
                proof {
                    let suf = full.skip(i as int);
                    assert(suf[0] == full[i as int]);
                    assert(!key_lt(suf[0].attr, suf[0].cat, e@.attr, e@.cat));
                    assert(suf.skip(1) =~= full.skip(i + 1));
                    assert(meta_insert(suf, e@.attr, e@.cat, e@.value) =~= seq![e@] + full.skip(
                        i + 1,
                    ));
                }
                self.entries.set(i, e);
                proof {
                    assert(self@ =~= full.take(i as int) + (seq![self.entries@[i as int]@]
                        + full.skip(i + 1)));
                }
                return ;
            } else {
                let e = MetaEntry { attr, cat, value };
                proof {
                    let suf = full.skip(i as int);
                    assert(suf[0] == full[i as int]);
                    assert(!key_lt(suf[0].attr, suf[0].cat, e@.attr, e@.cat));
                    assert(!(suf[0].attr == e@.attr && suf[0].cat == e@.cat));
                    assert(meta_insert(suf, e@.attr, e@.cat, e@.value) =~= seq![e@] + suf);
                }
                self.entries.insert(i, e);
                proof {
                    assert(self@ =~= full.take(i as int) + (seq![self.entries@[i as int]@]
                        + full.skip(i as int)));
                }
                return ;
            }
        }
        let e = MetaEntry { attr, cat, value };
        proof {
            assert(full.skip(n as int) =~= Seq::<MetaEntryV>::empty());
            assert(meta_insert(full.skip(n as int), attr@, cat@, value@) =~= seq![e@]);
            assert(full.take(n as int) =~= full);
        }
        self.entries.push(e);
        proof {
            assert(self@ =~= full + seq![e@]);
        }
    }
}


/// Adjacent keys of `es` strictly ascend: the entries stand in key order.
pub open spec fn keys_ascending(es: Seq<MetaEntryV>) -> bool {
    forall|i: int|
        0 <= i && i + 1 < es.len() ==> key_lt(
            (#[trigger] es[i]).attr,
            es[i].cat,
            es[i + 1].attr,
            es[i + 1].cat,
        )
}

/// The first entry after an insertion is the inserted entry or the old first.
proof fn lemma_meta_insert_first(
    es: Seq<MetaEntryV>,
    attr: Seq<char>,
    cat: Seq<char>,
    value: Seq<char>,
)
    ensures
        meta_insert(es, attr, cat, value).len() >= 1,
        ({
            let r = meta_insert(es, attr, cat, value);
            (r[0].attr == attr && r[0].cat == cat) || (es.len() > 0 && r[0] == es[0])
        }),
{
}

/// The key pair order is transitive.
proof fn lemma_key_lt_trans(
    a1: Seq<char>,
    c1: Seq<char>,
    a2: Seq<char>,
    c2: Seq<char>,
    a3: Seq<char>,
    c3: Seq<char>,
)
    requires
        key_lt(a1, c1, a2, c2),
        key_lt(a2, c2, a3, c3),
    ensures
        key_lt(a1, c1, a3, c3),
{
    if seq_char_lt(a1, a2) && seq_char_lt(a2, a3) {
        crate::text::lemma_seq_char_lt_trans(a1, a2, a3);
    } else if a1 == a2 && a2 == a3 {
        crate::text::lemma_seq_char_lt_trans(c1, c2, c3);
    }
}

/// A key pair that is neither smaller than another nor equal to it is larger.
proof fn lemma_key_lt_connected(a1: Seq<char>, c1: Seq<char>, a2: Seq<char>, c2: Seq<char>)
    requires
        !key_lt(a1, c1, a2, c2),
        !(a1 == a2 && c1 == c2),
    ensures
        key_lt(a2, c2, a1, c1),
{
    crate::text::lemma_seq_char_lt_connected(a1, a2);
    if a1 == a2 {
        crate::text::lemma_seq_char_lt_connected(c1, c2);
    }
}

/// Inserting into a metadata block whose keys ascend keeps them ascending:
/// the entries of a block stay sorted by their (attribute, category) key, and
/// each key is held at most once.
pub proof fn lemma_meta_insert_keys_ascending(
    es: Seq<MetaEntryV>,
    attr: Seq<char>,
    cat: Seq<char>,
    value: Seq<char>,
)
    requires
        keys_ascending(es),
    ensures
        keys_ascending(meta_insert(es, attr, cat, value)),
    decreases es.len(),
{
    let e = MetaEntryV { attr, cat, value };
    let r = meta_insert(es, attr, cat, value);
    if es.len() == 0 {
        assert(keys_ascending(r));
    } else if key_lt(es[0].attr, es[0].cat, attr, cat) {
        let tail = es.skip(1);
        assert forall|i: int| 0 <= i && i + 1 < tail.len() implies key_lt(
            (#[trigger] tail[i]).attr,
            tail[i].cat,
            tail[i + 1].attr,
            tail[i + 1].cat,
        ) by {
            assert(tail[i] == es[i + 1]);
            assert(tail[i + 1] == es[i + 2]);
        }
        lemma_meta_insert_keys_ascending(tail, attr, cat, value);
        lemma_meta_insert_first(tail, attr, cat, value);
        let rt = meta_insert(tail, attr, cat, value);
        assert(r == seq![es[0]] + rt);
        assert(key_lt(r[0].attr, r[0].cat, r[1].attr, r[1].cat)) by {
            assert(r[0] == es[0]);
            assert(r[1] == rt[0]);
            if rt[0].attr == attr && rt[0].cat == cat {
            } else {
                assert(rt[0] == tail[0] && tail[0] == es[1]);
            }
        }
        assert forall|i: int| 0 <= i && i + 1 < r.len() implies key_lt(
            (#[trigger] r[i]).attr,
            r[i].cat,
            r[i + 1].attr,
            r[i + 1].cat,
        ) by {
            if i > 0 {
                assert(r[i] == rt[i - 1]);
                assert(r[i + 1] == rt[i]);
            }
        }
    } else if es[0].attr == attr && es[0].cat == cat {
        assert(r == seq![e] + es.skip(1));
        assert forall|i: int| 0 <= i && i + 1 < r.len() implies key_lt(
            (#[trigger] r[i]).attr,
            r[i].cat,
            r[i + 1].attr,
            r[i + 1].cat,
        ) by {
            if i == 0 {
                assert(r[1] == es[1]);
                assert(key_lt(es[0].attr, es[0].cat, es[1].attr, es[1].cat));
            } else {
                assert(r[i] == es[i]);
                assert(r[i + 1] == es[i + 1]);
            }
        }
    } else {
        lemma_key_lt_connected(es[0].attr, es[0].cat, attr, cat);
        assert(r == seq![e] + es);
        assert forall|i: int| 0 <= i && i + 1 < r.len() implies key_lt(
            (#[trigger] r[i]).attr,
            r[i].cat,
            r[i + 1].attr,
            r[i + 1].cat,
        ) by {
            if i == 0 {
                assert(r[0] == e);
                assert(r[1] == es[0]);
            } else {
                assert(r[i] == es[i - 1]);
                assert(r[i + 1] == es[i]);
            }
        }
    }
}

/// Ascending keys are unique: no two entries of the block hold the same key.
pub proof fn lemma_keys_ascending_unique(es: Seq<MetaEntryV>, i: int, j: int)
    requires
        keys_ascending(es),
        0 <= i < j < es.len(),
    ensures
        !(es[i].attr == es[j].attr && es[i].cat == es[j].cat),
    decreases j - i,
{
    if i + 1 == j {
        if es[i].attr == es[j].attr && es[i].cat == es[j].cat {
            crate::text::lemma_seq_char_lt_irrefl(es[i].attr);
            crate::text::lemma_seq_char_lt_irrefl(es[i].cat);
        }
    } else {
        lemma_keys_ascending_unique(es, i + 1, j);
        if es[i].attr == es[j].attr && es[i].cat == es[j].cat {
            lemma_key_chain(es, i + 1, j);
            lemma_key_lt_trans(
                es[i].attr,
                es[i].cat,
                es[i + 1].attr,
                es[i + 1].cat,
                es[j].attr,
                es[j].cat,
            );
            crate::text::lemma_seq_char_lt_irrefl(es[i].attr);
            crate::text::lemma_seq_char_lt_irrefl(es[i].cat);
        }
    }
}

/// Along an ascending block, any earlier key is smaller than any later one.
proof fn lemma_key_chain(es: Seq<MetaEntryV>, i: int, j: int)
    requires
        keys_ascending(es),
        0 <= i < j < es.len(),
    ensures
        key_lt(es[i].attr, es[i].cat, es[j].attr, es[j].cat),
    decreases j - i,
{
    if i + 1 < j {
        lemma_key_chain(es, i + 1, j);
        lemma_key_lt_trans(
            es[i].attr,
            es[i].cat,
            es[i + 1].attr,
            es[i + 1].cat,
            es[j].attr,
            es[j].cat,
        );
    }
}

} // verus!
