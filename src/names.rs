use vstd::prelude::*;

use convert_case::Casing;

use crate::error::{Error, ErrorView};
use crate::text::{candidates_starting_with, has_prefix, starting_with};

verus! {

/// The canonical form of a name: lowercase words joined by underscores.
pub uninterp spec fn snake_case_of(s: Seq<char>) -> Seq<char>;

/// Relies on convert_case's `Casing::to_case` with `Case::Snake`, which
/// splits a name into words and joins them lowercased with underscores; its
/// result depends on the text alone.
#[verifier::external_body]
fn to_snake_case(s: &str) -> (r: String)
    ensures
        r@ == snake_case_of(s@),
{
    s.to_case(convert_case::Case::Snake)
}

/// One variant of an enumeration, as declared: its identifier, the aliases
/// attached to it, and whether it carries fields.
pub struct VariantDecl {
    pub ident: String,
    pub aliases: Vec<String>,
    pub has_fields: bool,
}

/// Why no name table can be built for an enumeration.
#[derive(Debug, Clone, Copy, PartialEq, Eq, Structural)]
pub enum DeriveError {
    /// The variant at this position carries fields; only field-less
    /// variants have names.
    FieldsOnVariant { variant: usize },
}

/// The entries that variant `i` contributes: its identifier, then each alias,
/// every one in canonical form.
pub open spec fn variant_entries(i: nat, ident: Seq<char>, aliases: Seq<Seq<char>>) -> Seq<
    (nat, Seq<char>),
> {
    seq![(i, snake_case_of(ident))] + aliases.map_values(|a: Seq<char>| (i, snake_case_of(a)))
}

/// The name table of the declared variants, in declaration order.
pub open spec fn table_entries(decls: Seq<VariantDecl>) -> Seq<(nat, Seq<char>)>
    decreases decls.len(),
{
    if decls.len() == 0 {
        Seq::empty()
    } else {
        table_entries(decls.drop_last()) + variant_entries(
            (decls.len() - 1) as nat,
            decls.last().ident@,
            decls.last().aliases.deep_view(),
        )
    }
}

/// The variant of the first entry named `s`, if any.
pub open spec fn first_variant_named(entries: Seq<(nat, Seq<char>)>, s: Seq<char>) -> Option<nat>
    decreases entries.len(),
{
    if entries.len() == 0 {
        None
    } else {
        match first_variant_named(entries.drop_last(), s) {
            Some(v) => Some(v),
            None => if entries.last().1 == s {
                Some(entries.last().0)
            } else {
                None
            },
        }
    }
}

/// What looking up the text `s` in a table with these entries gives.
pub open spec fn lookup_spec(entries: Seq<(nat, Seq<char>)>, s: Seq<char>) -> Result<nat, ErrorView> {
    match first_variant_named(entries, s) {
        Some(v) => Ok(v),
        None => if s.len() == 0 {
            Err(ErrorView::EmptyValue)
        } else {
            Err(ErrorView::InvalidValue { value: s })
        },
    }
}

/// The names of an enumeration's variants and aliases in canonical form, each
/// with the position of its variant, in declaration order.
pub struct NameTable {
    names: Vec<String>,
    variants: Vec<usize>,
}

impl NameTable {
    pub closed spec fn wf(&self) -> bool {
        self.names@.len() == self.variants@.len()
    }

    /// The entries of the table: (variant position, canonical name).
    pub closed spec fn entries(&self) -> Seq<(nat, Seq<char>)> {
        Seq::new(self.names@.len(), |j: int| (self.variants@[j] as nat, self.names@[j]@))
    }

    /// The canonical names, in table order.
    pub open spec fn names_view(&self) -> Seq<Seq<char>> {
        self.entries().map_values(|e: (nat, Seq<char>)| e.1)
    }

    /// Builds the table of the declared variants: each variant's identifier,
    /// then its aliases, in canonical form. Fails on the first variant that
    /// carries fields.
    pub fn build(decls: &Vec<VariantDecl>) -> (r: Result<NameTable, DeriveError>)
        ensures
            r is Ok <==> forall|i: int| 0 <= i < decls@.len() ==> !(#[trigger] decls@[i]).has_fields,
            r is Ok ==> r->Ok_0.wf() && r->Ok_0.entries() == table_entries(decls@),
            r matches Err(DeriveError::FieldsOnVariant { variant }) ==> variant < decls@.len()
                && decls@[variant as int].has_fields && forall|i: int|
                0 <= i < variant ==> !(#[trigger] decls@[i]).has_fields,
    {
        let mut k: usize = 0;
        while k < decls.len()
            invariant
                0 <= k <= decls@.len(),
                forall|i: int| 0 <= i < k ==> !(#[trigger] decls@[i]).has_fields,
            decreases decls.len() - k,
        {
            if decls[k].has_fields {
                return Err(DeriveError::FieldsOnVariant { variant: k });
            }
            k = k + 1;
        }
        let mut table = NameTable { names: Vec::new(), variants: Vec::new() };
        proof {
            assert(decls@.take(0).len() == 0);
            assert(table.entries() =~= table_entries(decls@.take(0)));
        }
        let mut i: usize = 0;
        while i < decls.len()
            invariant
                0 <= i <= decls@.len(),
                table.wf(),
                table.entries() == table_entries(decls@.take(i as int)),
            decreases decls.len() - i,
        {
            let decl = &decls[i];
            let ghost before = table.entries();
            let ghost aliases = decl.aliases.deep_view();
            table.names.push(to_snake_case(decl.ident.as_str()));
            table.variants.push(i);
            proof {
                assert(table.entries() =~= before + variant_entries(i as nat, decl.ident@, aliases.take(0)));
            }
            let mut j: usize = 0;
            while j < decl.aliases.len()
                invariant
                    decl == decls@[i as int],
                    aliases == decl.aliases.deep_view(),
                    0 <= j <= decl.aliases@.len(),
                    table.wf(),
                    table.entries() == before + variant_entries(i as nat, decl.ident@, aliases.take(j as int)),
                decreases decl.aliases.len() - j,
            {
                let ghost mid = table.entries();
                table.names.push(to_snake_case(decl.aliases[j].as_str()));
                table.variants.push(i);
                proof {
                    assert(variant_entries(i as nat, decl.ident@, aliases.take(j as int + 1)) =~= variant_entries(i as nat, decl.ident@, aliases.take(j as int)).push((i as nat, snake_case_of(aliases[j as int]))));
                    assert(table.entries() =~= mid.push((i as nat, snake_case_of(aliases[j as int]))));
                }
                j = j + 1;
            }
            proof {
                assert(aliases.take(j as int) =~= aliases);
                assert(decls@.take(i as int + 1).drop_last() =~= decls@.take(i as int));
            }
            i = i + 1;
        }
        proof {
            assert(decls@.take(decls@.len() as int) =~= decls@);
        }
        Ok(table)
    }

    /// A table of names already in canonical form, `names[j]` belonging to
    /// the variant at position `variants[j]`; `None` where the two lists
    /// differ in length.
    pub fn from_canonical(names: Vec<String>, variants: Vec<usize>) -> (r: Option<NameTable>)
        ensures
            r is Some <==> names@.len() == variants@.len(),
            r matches Some(t) ==> t.wf() && t.entries() == Seq::new(
                names@.len(),
                |j: int| (variants@[j] as nat, names@[j]@),
            ),
    {
        if names.len() == variants.len() {
            Some(NameTable { names, variants })
        } else {
            None
        }
    }

    /// Looks `s` up by exact match on the canonical names: the variant
    /// position of the first entry so named; for no match, `EmptyValue` on
    /// an empty text and `InvalidValue` otherwise.
    pub fn lookup(&self, s: &str) -> (r: Result<usize, Error>)
        requires
            self.wf(),
        ensures
            r matches Ok(v) ==> lookup_spec(self.entries(), s@) == Ok::<nat, ErrorView>(v as nat),
            r matches Err(e) ==> lookup_spec(self.entries(), s@) == Err::<nat, ErrorView>(e@),
    {
        let mut j: usize = 0;
        while j < self.names.len()
            invariant
                self.wf(),
                0 <= j <= self.names@.len(),
                first_variant_named(self.entries().take(j as int), s@) is None,
            decreases self.names.len() - j,
        {
            proof {
                assert(self.entries().take(j as int + 1).drop_last() =~= self.entries().take(j as int));
            }
            let name = self.names[j].as_str();
            if name.unicode_len() == s.unicode_len() && has_prefix(name, s) {
                proof {
                    assert(s@ =~= name@);
                    lemma_first_match_sticks(self.entries(), j as int + 1, s@);
                }
                return Ok(self.variants[j]);
            }
            j = j + 1;
        }
        proof {
            assert(self.entries().take(self.names@.len() as int) =~= self.entries());
        }
        if s.unicode_len() == 0 {
            Err(Error::EmptyValue)
        } else {
            Err(Error::invalid_value(s))
        }
    }

    /// The canonical names that start with `prefix`, in table order.
    pub fn complete(&self, prefix: &str) -> (r: Vec<String>)
        requires
            self.wf(),
        ensures
            r.deep_view() == starting_with(self.names_view(), prefix@),
    {
        proof {
            assert(self.names.deep_view() =~= self.names_view());
        }
        candidates_starting_with(&self.names, prefix)
    }
}

/// A match found in a prefix of the entries is the first match of them all.
proof fn lemma_first_match_sticks(entries: Seq<(nat, Seq<char>)>, k: int, s: Seq<char>)
    requires
        0 <= k <= entries.len(),
        first_variant_named(entries.take(k), s) is Some,
    ensures
        first_variant_named(entries, s) == first_variant_named(entries.take(k), s),
    decreases entries.len(),
{
    if entries.len() == k {
        assert(entries.take(k) =~= entries);
    } else {
        assert(entries.drop_last().take(k) =~= entries.take(k));
        lemma_first_match_sticks(entries.drop_last(), k, s);
    }
}

/// Where the canonical names of a table are pairwise distinct, looking up
/// any of them gives the variant that the name belongs to.
pub proof fn lemma_lookup_round_trip(entries: Seq<(nat, Seq<char>)>, j: int)
    requires
        0 <= j < entries.len(),
        forall|a: int, b: int|
            0 <= a < b < entries.len() ==> (#[trigger] entries[a]).1 != (#[trigger] entries[b]).1,
    ensures
        lookup_spec(entries, entries[j].1) == Ok::<nat, ErrorView>(entries[j].0),
    decreases entries.len(),
{
    lemma_no_match_before(entries.take(j), entries[j].1);
    assert(entries.take(j + 1).drop_last() =~= entries.take(j));
    lemma_first_match_sticks(entries, j + 1, entries[j].1);
}

/// No entry of `entries` is named `s`, so the lookup finds nothing.
proof fn lemma_no_match_before(entries: Seq<(nat, Seq<char>)>, s: Seq<char>)
    requires
        forall|a: int| 0 <= a < entries.len() ==> (#[trigger] entries[a]).1 != s,
    ensures
        first_variant_named(entries, s) is None,
    decreases entries.len(),
{
    if entries.len() > 0 {
        lemma_no_match_before(entries.drop_last(), s);
    }
}

} // verus!
