//! The model's configuration file: a JSON object whose members give the shape of the model.
use crate::json::{
    json_depth, json_fields, json_list_item, json_list_len, json_number, json_pretty,
    json_set_list, json_set_number, json_text, list_or_empty, list_text, max_depth, number_at,
    read_json, reads_as, write_json, Members,
};
use crate::numerals::decimal;
use vstd::prelude::*;

verus! {

/// The number at `key`, or `default`.
pub open spec fn number_or(m: Members, key: Seq<char>, default: u64) -> u64 {
    match number_at(m, key) {
        Some(n) => n,
        None => default,
    }
}

/// The numbers among the elements, in their order, as `usize`.
pub open spec fn numbers_of(items: Seq<Option<u64>>) -> Seq<usize>
    decreases items.len(),
{
    if items.len() == 0 {
        Seq::empty()
    } else {
        let head = numbers_of(items.drop_last());
        match items.last() {
            Some(n) => head.push(n as usize),
            None => head,
        }
    }
}

/// The numbers in the list at `key`; none where there is no list.
pub open spec fn numbers_at(m: Members, key: Seq<char>) -> Seq<usize> {
    numbers_of(list_or_empty(m, key))
}

/// The member that holds the number `n`.
pub open spec fn number_member(n: u64) -> (Option<u64>, Option<Seq<Option<u64>>>, Seq<char>) {
    (Some(n), None, decimal(n as nat))
}

/// The member that holds the list of the numbers `items`.
pub open spec fn list_member(items: Seq<u64>) -> (
    Option<u64>,
    Option<Seq<Option<u64>>>,
    Seq<char>,
) {
    (None, Some(items.map_values(|n: u64| Some(n))), list_text(items))
}

/// The members of the configuration that a file holds; none where there is no file, or its text is
/// no JSON.
pub open spec fn members_of_file(text: Option<Seq<char>>) -> Members {
    match text {
        Some(t) => match json_text(t) {
            Some(m) => m,
            None => Map::empty(),
        },
        None => Map::empty(),
    }
}

/// A configuration.
pub struct ConfigDoc {
    value: serde_json::Value,
}

impl View for ConfigDoc {
    type V = Members;

    closed spec fn view(&self) -> Members {
        json_fields(self.value)
    }
}

/// Why a configuration cannot be used.
#[derive(Clone, Copy, Debug, PartialEq, Eq, Structural)]
pub enum ConfigError {
    /// The text is no JSON.
    NotJson,
    /// A member that has to be an unsigned integer is missing or something else.
    MissingNumber,
}

impl ConfigDoc {
    /// The document can be written and read again.
    pub closed spec fn wf(&self) -> bool {
        json_depth(self.value) <= max_depth()
    }

    /// Reads a configuration.
    pub fn parse(text: &str) -> (r: Result<ConfigDoc, ConfigError>)
        ensures
            r is Ok <==> json_text(text@) is Some,
            r matches Ok(doc) ==> doc.wf() && json_text(text@) == Some(doc@),
            r matches Err(e) ==> e == ConfigError::NotJson,
    {
        match read_json(text) {
            Ok(value) => Ok(ConfigDoc { value }),
            Err(_) => Err(ConfigError::NotJson),
        }
    }

    /// The number at `key`.
    pub fn number(&self, key: &str) -> (r: Option<u64>)
        ensures
            r == number_at(self@, key@),
    {
        json_number(&self.value, key)
    }

    /// The number at `key`, or `default`.
    pub fn number_or(&self, key: &str, default: u64) -> (r: u64)
        ensures
            r == number_or(self@, key@, default),
    {
        match self.number(key) {
            Some(n) => n,
            None => default,
        }
    }

    /// The numbers in the list at `key`; none where there is no list.
    pub fn numbers(&self, key: &str) -> (r: Vec<usize>)
        ensures
            r@ == numbers_at(self@, key@),
    {
        let mut out: Vec<usize> = Vec::new();
        match json_list_len(&self.value, key) {
            None => {},
            Some(n) => {
                let ghost items = list_or_empty(json_fields(self.value), key@);
                let mut i: usize = 0;
                assert(items.take(0) =~= Seq::<Option<u64>>::empty());
                while i < n
                    invariant
                        i <= n,
                        n == items.len(),
                        items == list_or_empty(json_fields(self.value), key@),
                        out@ == numbers_of(items.take(i as int)),
                    decreases n - i,
                {
                    proof {
                        assert(items.take(i + 1).drop_last() =~= items.take(i as int));
                        assert(items.take(i + 1).last() == items[i as int]);
                    }
                    match json_list_item(&self.value, key, i) {
                        Some(m) => {
                            out.push(m as usize);
                        },
                        None => {},
                    }
                    i = i + 1;
                }
                assert(items.take(n as int) =~= items);
            },
        }
        out
    }

    /// Makes the member `key` the number `n`.
    pub fn set_number(&mut self, key: &str, n: u64)
        requires
            old(self).wf(),
            exists|k: Seq<char>| old(self)@.contains_key(k),
        ensures
            final(self).wf(),
            final(self)@ == old(self)@.insert(key@, number_member(n)),
    {
        json_set_number(&mut self.value, key, n);
    }

    /// Makes the member `key` the list of the numbers `items`.
    pub fn set_list(&mut self, key: &str, items: &Vec<usize>)
        requires
            old(self).wf(),
            exists|k: Seq<char>| old(self)@.contains_key(k),
        ensures
            final(self).wf(),
            final(self)@ == old(self)@.insert(key@, list_member(items@.map_values(|n: usize| n as u64))),
    {
        let mut wide: Vec<u64> = Vec::new();
        let mut i: usize = 0;
        while i < items.len()
            invariant
                i <= items.len(),
                wide@ == items@.take(i as int).map_values(|n: usize| n as u64),
            decreases items.len() - i,
        {
            wide.push(items[i] as u64);
            i = i + 1;
            assert(wide@ =~= items@.take(i as int).map_values(|n: usize| n as u64));
        }
        assert(items@.take(i as int) =~= items@);
        json_set_list(&mut self.value, key, wide);
    }

    /// The text of the configuration, which depends on its members alone where it has any; reading it
    /// gives the members back, but for the last digit of fractions.
    pub fn render(&self) -> (r: String)
        requires
            self.wf(),
        ensures
            reads_as(json_text(r@), self@),
            (exists|k: Seq<char>| self@.contains_key(k)) ==> r@ == json_pretty(self@),
    {
        match write_json(&self.value) {
            Ok(text) => text,
            Err(_) => String::new(),
        }
    }
}

/// The numbers of a list are those of its elements that are numbers, in their order.
pub proof fn law_lists_are_read_element_by_element(a: Seq<Option<u64>>, b: Seq<Option<u64>>, n: u64)
    ensures
        numbers_of(a + b) == numbers_of(a) + numbers_of(b),
        numbers_of(seq![Some(n)]) == seq![n as usize],
        numbers_of(seq![None::<u64>]) == Seq::<usize>::empty(),
        numbers_of(Seq::<Option<u64>>::empty()) == Seq::<usize>::empty(),
    decreases b.len(),
{
    reveal_with_fuel(numbers_of, 2);
    assert(seq![Some(n)].drop_last() =~= Seq::<Option<u64>>::empty());
    assert(seq![None::<u64>].drop_last() =~= Seq::<Option<u64>>::empty());
    assert(numbers_of(seq![Some(n)]) =~= seq![n as usize]);
    if b.len() == 0 {
        assert(a + b =~= a);
        assert(numbers_of(a) + numbers_of(b) =~= numbers_of(a));
    } else {
        law_lists_are_read_element_by_element(a, b.drop_last(), n);
        assert((a + b).drop_last() =~= a + b.drop_last());
        assert(numbers_of(a + b) =~= numbers_of(a) + numbers_of(b));
    }
}

/// A number that a configuration lacks, or holds as something else, is the default; one that it holds is
/// what it holds. A file that is missing or is no JSON gives nothing but defaults.
pub proof fn law_defaults_stand_in(
    m: Members,
    key: Seq<char>,
    n: u64,
    default: u64,
    text: Seq<char>,
)
    ensures
        json_text(text) is None ==> number_or(members_of_file(Some(text)), key, default) == default,
        json_text(text) == Some(m) ==> members_of_file(Some(text)) == m,
        number_at(m, key) == Some(n) ==> number_or(m, key, default) == n,
        number_at(m, key) is None ==> number_or(m, key, default) == default,
        number_or(members_of_file(None), key, default) == default,
        number_or(m.insert(key, number_member(n)), key, default) == n,
{
}

} // verus!
