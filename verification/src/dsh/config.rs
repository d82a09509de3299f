//! The configuration values that an agent advertises.
use vstd::prelude::*;

use super::error::{
    invalid, invalid_about, invalid_data, DriverError, ErrorKind, FaultModel,
};
use crate::json::{
    find_by, law_the_first_match_is_found, list_model, parse_string_list, string_list, Json,
    JsonModel,
};
use crate::text::text_eq;

verus! {

/// The configuration option of that name.
pub open spec fn option_of(options: JsonModel, id: Seq<char>) -> Option<JsonModel> {
    match options.list() {
        Some(items) => find_by(items, "id"@, id),
        None => None,
    }
}

/// The values in a list of groups: of each element first its own, then those of its own list.
pub open spec fn advertised(value: JsonModel) -> Seq<Seq<char>>
    decreases value,
{
    match value {
        JsonModel::List(items) => advertised_by(items),
        _ => Seq::empty(),
    }
}

pub open spec fn own_value(item: JsonModel) -> Seq<Seq<char>> {
    match item.at("value"@).text() {
        Some(value) => seq![value],
        None => Seq::empty(),
    }
}

pub open spec fn advertised_by(items: Seq<JsonModel>) -> Seq<Seq<char>>
    decreases items,
{
    if items.len() == 0 {
        Seq::empty()
    } else {
        advertised_by(items.drop_last()) + own_value(items.last()) + match items.last() {
            JsonModel::Table(fields) => if fields.contains_key("options"@) {
                advertised(fields["options"@])
            } else {
                Seq::empty()
            },
            _ => Seq::empty(),
        }
    }
}

/// A value is a route to what was asked for: a pair whose second part is that.
pub open spec fn leads_to(route: Option<Seq<Seq<char>>>, requested: Seq<char>) -> bool {
    route matches Some(parts) && parts.len() == 2 && parts[1] == requested
}

/// The values that are routes to what was asked for.
pub open spec fn routes_to(
    values: Seq<Seq<char>>,
    routes: Seq<Option<Seq<Seq<char>>>>,
    requested: Seq<char>,
) -> Seq<Seq<char>>
    decreases values.len(),
{
    if values.len() == 0 {
        Seq::empty()
    } else {
        let front = routes_to(values.drop_last(), routes, requested);
        if leads_to(routes[values.len() - 1], requested) {
            front.push(values.last())
        } else {
            front
        }
    }
}

/// The value to configure: what was asked for, if it is among the values, or else the only route to
/// it.
pub open spec fn chosen(
    values: Seq<Seq<char>>,
    routes: Seq<Option<Seq<Seq<char>>>>,
    requested: Seq<char>,
) -> Option<Seq<char>> {
    let found = routes_to(values, routes, requested);
    if values.contains(requested) {
        Some(requested)
    } else if found.len() == 1 {
        Some(found[0])
    } else {
        None
    }
}

/// How values read as lists of texts.
pub open spec fn read_routes(values: Seq<Seq<char>>) -> Seq<Option<Seq<Seq<char>>>> {
    values.map_values(|value: Seq<char>| string_list(value))
}

/// The value to configure, out of all that an agent advertises for an option.
pub open spec fn configured(options: JsonModel, id: Seq<char>, requested: Seq<char>) -> Result<
    Seq<char>,
    FaultModel,
> {
    match option_of(options, id) {
        None => Err(invalid_data("DSH does not advertise "@ + id)),
        Some(option) => {
            let values = advertised(option.at("options"@));
            match chosen(values, read_routes(values), requested) {
                Some(value) => Ok(value),
                None => Err(
                    invalid_data(
                        "unsupported or ambiguous DSH "@ + id
                            + "; use an advertised configuration value"@,
                    ),
                ),
            }
        },
    }
}

/// An agent acknowledged a selection: the option has exactly the value that was asked for.
pub open spec fn is_confirmed(options: JsonModel, id: Seq<char>, expected: Seq<char>) -> bool {
    option_of(options, id) matches Some(option) && option.at("currentValue"@).text() == Some(
        expected,
    )
}

/// What texts stand for.
pub open spec fn texts_view(texts: Seq<String>) -> Seq<Seq<char>> {
    texts.map_values(|t: String| t@)
}

/// What an optional list of texts stands for.
pub open spec fn route_view(route: Option<Vec<String>>) -> Option<Seq<Seq<char>>> {
    match route {
        Some(parts) => Some(texts_view(parts@)),
        None => None,
    }
}

pub open spec fn routes_view(routes: Seq<Option<Vec<String>>>) -> Seq<Option<Seq<Seq<char>>>> {
    routes.map_values(|r: Option<Vec<String>>| route_view(r))
}

/// Gathers the advertised values.
fn collect(value: &Json, values: &mut Vec<String>)
    ensures
        texts_view(final(values)@) == texts_view(old(values)@) + advertised(value@),
    decreases value@,
{
    let ghost base = texts_view(values@);
    match value {
        Json::List(items) => {
            let ghost all = list_model(items@);
            proof {
                crate::json::lemma_list_model(items@);
                assert(all.take(0) =~= Seq::<JsonModel>::empty());
                assert(base + Seq::<Seq<char>>::empty() =~= base);
            }
            let mut i: usize = 0;
            while i < items.len()
                invariant
                    i <= items@.len(),
                    value@ == JsonModel::List(all),
                    all == list_model(items@),
                    all.len() == items@.len(),
                    forall|j: int| 0 <= j < items@.len() ==> #[trigger] all[j] == items@[j]@,
                    texts_view(values@) == base + advertised_by(all.take(i as int)),
                decreases items@.len() - i,
            {
                let item = &items[i];
                let ghost before = texts_view(values@);
                proof {
                    assert(all[i as int] == item@);
                    assert(all.take(i + 1).drop_last() =~= all.take(i as int));
                    assert(decreases_to!(value@ => value@->List_0));
                    assert(decreases_to!(all => all[i as int]));
                }
                if let Some(text) = item.text_at("value") {
                    let ghost earlier = values@;
                    values.push(text.to_string());
                    assert(texts_view(values@) =~= texts_view(earlier).push(text@));
                }
                assert(texts_view(values@) =~= before + own_value(item@));
                let ghost middle = texts_view(values@);
                if let Some(more) = item.get("options") {
                    assert(decreases_to!(item@ => item@->Table_0["options"@]));
                    collect(more, values);
                }
                proof {
                    let rest = match item@ {
                        JsonModel::Table(fields) => if fields.contains_key("options"@) {
                            advertised(fields["options"@])
                        } else {
                            Seq::empty()
                        },
                        _ => Seq::empty(),
                    };
                    assert(texts_view(values@) =~= middle + rest);
                    assert(base + advertised_by(all.take(i + 1)) =~= (base + advertised_by(
                        all.take(i as int),
                    )) + own_value(item@) + rest);
                }
                i = i + 1;
            }
            assert(all.take(i as int) =~= all);
        },
        _ => {
            assert(base + advertised(value@) =~= base);
        },
    }
}

/// Whether a text is among texts.
fn contains_text(values: &Vec<String>, text: &str) -> (b: bool)
    ensures
        b == texts_view(values@).contains(text@),
{
    let mut i: usize = 0;
    let ghost all = texts_view(values@);
    while i < values.len()
        invariant
            i <= values@.len(),
            all == texts_view(values@),
            forall|j: int| 0 <= j < i ==> #[trigger] all[j] != text@,
        decreases values@.len() - i,
    {
        assert(all[i as int] == values@[i as int]@);
        if text_eq(values[i].as_str(), text) {
            return true;
        }
        i = i + 1;
    }
    false
}

/// Chooses the value to configure, given how each value reads as a list of texts.
pub fn choose_value(
    values: &Vec<String>,
    routes: &Vec<Option<Vec<String>>>,
    requested: &str,
) -> (value: Option<String>)
    requires
        routes@.len() == values@.len(),
    ensures
        crate::json::text_view(value) == chosen(
            texts_view(values@),
            routes_view(routes@),
            requested@,
        ),
{
    if contains_text(values, requested) {
        return Some(requested.to_string());
    }
    let ghost all = texts_view(values@);
    let ghost reads = routes_view(routes@);
    let mut found: Vec<String> = Vec::new();
    let mut i: usize = 0;
    assert(texts_view(found@) =~= routes_to(all.take(0), reads, requested@));
    while i < values.len()
        invariant
            i <= values@.len(),
            routes@.len() == values@.len(),
            all == texts_view(values@),
            reads == routes_view(routes@),
            texts_view(found@) == routes_to(all.take(i as int), reads, requested@),
        decreases values@.len() - i,
    {
        proof {
            assert(all.take(i + 1).drop_last() =~= all.take(i as int));
            assert(reads[i as int] == route_view(routes@[i as int]));
            assert(all[i as int] == values@[i as int]@);
        }
        let leads = match &routes[i] {
            Some(parts) => parts.len() == 2 && text_eq(parts[1].as_str(), requested),
            None => false,
        };
        assert(leads == leads_to(reads[i as int], requested@));
        if leads {
            let ghost before = found@;
            found.push(values[i].clone());
            assert(texts_view(found@) =~= texts_view(before).push(all[i as int]));
        }
        i = i + 1;
    }
    assert(all.take(i as int) =~= all);
    if found.len() == 1 {
        assert(texts_view(found@)[0] == found@[0]@);
        Some(found[0].clone())
    } else {
        None
    }
}

/// Finds the value to configure for an option.
pub fn configured_value(options: &Json, id: &str, requested: &str) -> (value: Result<
    String,
    DriverError,
>)
    ensures
        match (value, configured(options@, id@, requested@)) {
            (Ok(text), Ok(expected)) => text@ == expected,
            (Err(error), Err(fault)) => error@ == fault,
            _ => false,
        },
{
    let option = match options.find("id", id) {
        Some(option) => option,
        None => {
            return Err(invalid_about("DSH does not advertise ", id));
        },
    };
    let mut values: Vec<String> = Vec::new();
    if let Some(list) = option.get("options") {
        collect(list, &mut values);
    }
    assert(texts_view(values@) =~= advertised(option@.at("options"@)));
    let mut routes: Vec<Option<Vec<String>>> = Vec::new();
    let mut i: usize = 0;
    while i < values.len()
        invariant
            i <= values@.len(),
            routes@.len() == i,
            forall|j: int|
                0 <= j < i ==> route_view(#[trigger] routes@[j]) == string_list(values@[j]@),
        decreases values@.len() - i,
    {
        routes.push(parse_string_list(values[i].as_str()));
        i = i + 1;
    }
    assert(routes_view(routes@) =~= read_routes(texts_view(values@)));
    match choose_value(&values, &routes, requested) {
        Some(value) => Ok(value),
        None => {
            let mut message = "unsupported or ambiguous DSH ".to_string();
            message.push_str(id);
            message.push_str("; use an advertised configuration value");
            Err(invalid(message.as_str()))
        },
    }
}

/// Refuses an acknowledgement of any other value than the one that was asked for.
pub fn confirm_selection(options: &Json, id: &str, expected: &str) -> (confirmed: Result<
    (),
    DriverError,
>)
    ensures
        confirmed is Ok <==> is_confirmed(options@, id@, expected@),
        confirmed matches Err(error) ==> error@ == invalid_data(
            "DSH did not acknowledge the requested selection"@,
        ),
{
    let applied = match options.find("id", id) {
        Some(option) => option.says("currentValue", expected),
        None => false,
    };
    if applied {
        Ok(())
    } else {
        Err(invalid("DSH did not acknowledge the requested selection"))
    }
}

/// The value is one of the first `n`, and a route to what was asked for.
pub open spec fn is_route(
    values: Seq<Seq<char>>,
    routes: Seq<Option<Seq<Seq<char>>>>,
    requested: Seq<char>,
    n: int,
    value: Seq<char>,
) -> bool {
    exists|i: int| 0 <= i < n && #[trigger] values[i] == value && leads_to(routes[i], requested)
}

proof fn lemma_routes_to(
    values: Seq<Seq<char>>,
    routes: Seq<Option<Seq<Seq<char>>>>,
    requested: Seq<char>,
    n: int,
)
    requires
        0 <= n <= values.len(),
    ensures
        forall|k: int|
            0 <= k < routes_to(values.take(n), routes, requested).len() ==> is_route(
                values,
                routes,
                requested,
                n,
                #[trigger] routes_to(values.take(n), routes, requested)[k],
            ),
    decreases n,
{
    if n > 0 {
        lemma_routes_to(values, routes, requested, n - 1);
        assert(values.take(n).drop_last() =~= values.take(n - 1));
        let front = routes_to(values.take(n - 1), routes, requested);
        let found = routes_to(values.take(n), routes, requested);
        assert forall|k: int| 0 <= k < found.len() implies is_route(
            values,
            routes,
            requested,
            n,
            #[trigger] found[k],
        ) by {
            if k < front.len() {
                assert(found[k] == front[k]);
                assert(is_route(values, routes, requested, n - 1, front[k]));
            } else {
                assert(values[n - 1] == found[k]);
            }
        }
    }
}

/// Only an advertised value is ever configured, and it is what was asked for or a route to it.
pub proof fn law_configured_values_are_advertised(
    values: Seq<Seq<char>>,
    routes: Seq<Option<Seq<Seq<char>>>>,
    requested: Seq<char>,
)
    ensures
        chosen(values, routes, requested) matches Some(value) ==> {
            &&& values.contains(value)
            &&& value == requested || is_route(
                values,
                routes,
                requested,
                values.len() as int,
                value,
            )
        },
{
    lemma_routes_to(values, routes, requested, values.len() as int);
    assert(values.take(values.len() as int) =~= values);
    let found = routes_to(values, routes, requested);
    if !values.contains(requested) && found.len() == 1 {
        assert(is_route(values, routes, requested, values.len() as int, found[0]));
    }
}

proof fn lemma_routes_counted(
    values: Seq<Seq<char>>,
    routes: Seq<Option<Seq<Seq<char>>>>,
    requested: Seq<char>,
    n: int,
    i: int,
)
    requires
        0 <= i < n <= values.len(),
        leads_to(routes[i], requested),
    ensures
        routes_to(values.take(n), routes, requested).len() >= routes_to(
            values.take(i),
            routes,
            requested,
        ).len() + 1,
    decreases n,
{
    assert(values.take(n).drop_last() =~= values.take(n - 1));
    if i < n - 1 {
        lemma_routes_counted(values, routes, requested, n - 1, i);
    }
}

/// What was asked for is configured as it is wherever it is advertised. Where it is not, and more
/// than one route leads to it, nothing is configured.
pub proof fn law_aliases_must_be_unique(
    values: Seq<Seq<char>>,
    routes: Seq<Option<Seq<Seq<char>>>>,
    requested: Seq<char>,
    i: int,
    j: int,
)
    ensures
        values.contains(requested) ==> chosen(values, routes, requested) == Some(requested),
        0 <= i < j < values.len() && leads_to(routes[i], requested) && leads_to(
            routes[j],
            requested,
        ) && !values.contains(requested) ==> chosen(values, routes, requested) is None,
{
    if 0 <= i < j < values.len() && leads_to(routes[i], requested) && leads_to(
        routes[j],
        requested,
    ) {
        lemma_routes_counted(values, routes, requested, j, i);
        lemma_routes_counted(values, routes, requested, values.len() as int, j);
        assert(values.take(values.len() as int) =~= values);
    }
}

/// Every value is advertised, in its order: of lists one after the other the values of each, and of an
/// element its own value, if it has a text for one, and then those of its own list.
pub proof fn law_every_value_is_advertised(
    items: Seq<JsonModel>,
    item: JsonModel,
    other: JsonModel,
)
    requires
        !(other is List),
    ensures
        advertised(other) == Seq::<Seq<char>>::empty(),
        advertised(JsonModel::List(Seq::empty())) == Seq::<Seq<char>>::empty(),
        advertised(JsonModel::List(items.push(item))) == advertised(JsonModel::List(items)) + (
        match item.at("value"@) {
            JsonModel::Text(value) => seq![value],
            _ => Seq::empty(),
        }) + advertised(item.at("options"@)),
{
    assert(items.push(item).drop_last() =~= items);
    let own = match item.at("value"@) {
        JsonModel::Text(value) => seq![value],
        _ => Seq::empty(),
    };
    assert(own_value(item) =~= own);
    assert(advertised_by(items.push(item)) =~= advertised_by(items) + own + advertised(
        item.at("options"@),
    ));
}

proof fn lemma_one_route(
    values: Seq<Seq<char>>,
    routes: Seq<Option<Seq<Seq<char>>>>,
    requested: Seq<char>,
    i: int,
    n: int,
)
    requires
        0 <= i < values.len(),
        0 <= n <= values.len(),
        leads_to(routes[i], requested),
        forall|j: int|
            0 <= j < values.len() && j != i ==> !leads_to(#[trigger] routes[j], requested),
    ensures
        routes_to(values.take(n), routes, requested) == if n <= i {
            Seq::<Seq<char>>::empty()
        } else {
            seq![values[i]]
        },
    decreases n,
{
    if n > 0 {
        lemma_one_route(values, routes, requested, i, n - 1);
        assert(values.take(n).drop_last() =~= values.take(n - 1));
        if n - 1 != i {
            assert(!leads_to(routes[n - 1], requested));
        } else {
            assert(routes_to(values.take(n), routes, requested) =~= seq![values[i]]);
        }
    }
}

/// A value that is advertised is configured as it is. Where what was asked for is not advertised
/// itself, the only value that is a pair with it as its second part is configured; where there is no
/// such value, or more than one, none is.
pub proof fn law_the_only_route_is_configured(
    values: Seq<Seq<char>>,
    routes: Seq<Option<Seq<Seq<char>>>>,
    requested: Seq<char>,
    i: int,
)
    requires
        0 <= i < values.len(),
        !values.contains(requested),
        routes[i] matches Some(parts) && parts.len() == 2 && parts[1] == requested,
        forall|j: int|
            0 <= j < values.len() && j != i ==> !(#[trigger] routes[j] matches Some(parts)
                && parts.len() == 2 && parts[1] == requested),
    ensures
        chosen(values, routes, requested) == Some(values[i]),
{
    assert forall|j: int| 0 <= j < values.len() && j != i implies !leads_to(
        #[trigger] routes[j],
        requested,
    ) by {}
    lemma_one_route(values, routes, requested, i, values.len() as int);
    assert(values.take(values.len() as int) =~= values);
}

/// Where no value is what was asked for or a route to it, none is configured.
pub proof fn law_nothing_is_configured_without_a_route(
    values: Seq<Seq<char>>,
    routes: Seq<Option<Seq<Seq<char>>>>,
    requested: Seq<char>,
)
    requires
        !values.contains(requested),
        forall|j: int|
            0 <= j < values.len() ==> !(#[trigger] routes[j] matches Some(parts) && parts.len() == 2
                && parts[1] == requested),
    ensures
        chosen(values, routes, requested) is None,
{
    law_configured_values_are_advertised(values, routes, requested);
}

/// The value to configure is chosen among what the first option of that name advertises, by how each
/// value reads as a list of texts; without the option, or a choice, it is refused in the words for it.
pub proof fn law_values_are_configured_from_their_option(
    before: Seq<JsonModel>,
    option: JsonModel,
    behind: Seq<JsonModel>,
    id: Seq<char>,
    requested: Seq<char>,
    other: JsonModel,
)
    requires
        forall|i: int|
            0 <= i < before.len() ==> (#[trigger] before[i]).at("id"@) != JsonModel::Text(id),
        option.at("id"@) == JsonModel::Text(id),
        !(other is List),
    ensures
        ({
            let options = JsonModel::List(before + seq![option] + behind);
            let values = advertised(option.at("options"@));
            let routes = Seq::new(values.len(), |i: int| string_list(values[i]));
            match chosen(values, routes, requested) {
                Some(value) => configured(options, id, requested) == Ok::<Seq<char>, FaultModel>(
                    value,
                ),
                None => configured(options, id, requested) == Err::<Seq<char>, FaultModel>(
                    FaultModel {
                        kind: ErrorKind::InvalidData,
                        message: "unsupported or ambiguous DSH "@ + id
                            + "; use an advertised configuration value"@,
                    },
                ),
            }
        }),
        configured(JsonModel::List(before), id, requested) == Err::<Seq<char>, FaultModel>(
            FaultModel {
                kind: ErrorKind::InvalidData,
                message: "DSH does not advertise "@ + id,
            },
        ),
        configured(other, id, requested) == configured(JsonModel::List(before), id, requested),
{
    law_the_first_match_is_found(before, option, behind, "id"@, id);
    let values = advertised(option.at("options"@));
    assert(read_routes(values) =~= Seq::new(values.len(), |i: int| string_list(values[i])));
}

/// A selection is acknowledged exactly if the first option of that name has the value as its current
/// one.
pub proof fn law_selections_are_acknowledged_exactly(
    before: Seq<JsonModel>,
    option: JsonModel,
    behind: Seq<JsonModel>,
    id: Seq<char>,
    expected: Seq<char>,
    other: JsonModel,
)
    requires
        forall|i: int|
            0 <= i < before.len() ==> (#[trigger] before[i]).at("id"@) != JsonModel::Text(id),
        option.at("id"@) == JsonModel::Text(id),
        !(other is List),
    ensures
        is_confirmed(JsonModel::List(before + seq![option] + behind), id, expected) <==> option.at(
            "currentValue"@,
        ) == JsonModel::Text(expected),
        !is_confirmed(JsonModel::List(before), id, expected),
        !is_confirmed(other, id, expected),
{
    law_the_first_match_is_found(before, option, behind, "id"@, id);
}

} // verus!
