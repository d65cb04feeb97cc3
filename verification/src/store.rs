//! The edits of the item collection, as steps between reading the persisted
//! collection and writing it back.

use crate::todo::Todo;
use vstd::prelude::*;
use vstd::string::*;

verus! {

/// Why a store operation failed.
#[derive(Debug, PartialEq, Eq)]
pub enum StoreError {
    /// No item carries the identifier that was asked for.
    NotFound,
    /// The collection could not be written back; the text says why.
    Persistence(String),
}

impl StoreError {
    /// The text shown to the user for this error.
    pub open spec fn message_text(&self) -> Seq<char> {
        match self {
            StoreError::NotFound => "Todo를 찾을 수 없습니다."@,
            StoreError::Persistence(reason) => reason@,
        }
    }

    /// The text shown to the user for this error.
    pub fn message(&self) -> (r: String)
        ensures
            r@ == self.message_text(),
    {
        match self {
            StoreError::NotFound => String::from_str("Todo를 찾을 수 없습니다."),
            StoreError::Persistence(reason) => reason.clone(),
        }
    }
}

/// Some item of the collection carries `id`.
pub open spec fn contains_id(todos: Seq<Todo>, id: Seq<char>) -> bool {
    exists|i: int| 0 <= i < todos.len() && (#[trigger] todos[i]).id@ == id
}

/// `pos` is where the first item that carries `id` stands.
pub open spec fn is_first_position(todos: Seq<Todo>, id: Seq<char>, pos: int) -> bool {
    &&& 0 <= pos < todos.len()
    &&& todos[pos].id@ == id
    &&& forall|j: int| 0 <= j < pos ==> (#[trigger] todos[j]).id@ != id
}

/// The collection without the items that carry `id`, the others in order.
pub open spec fn without_id(todos: Seq<Todo>, id: Seq<char>) -> Seq<Todo> {
    todos.filter(|t: Todo| t.id@ != id)
}

/// The items of the collection that carry `id`, in order.
pub open spec fn with_id(todos: Seq<Todo>, id: Seq<char>) -> Seq<Todo> {
    todos.filter(|t: Todo| t.id@ == id)
}

/// The collection to work on after an attempt to load the persisted one:
/// what was loaded, or the empty collection where nothing readable was there.
pub fn loaded_or_empty(loaded: Option<Vec<Todo>>) -> (r: Vec<Todo>)
    ensures
        r@ == (match loaded {
            Some(todos) => todos@,
            None => Seq::<Todo>::empty(),
        }),
{
    match loaded {
        Some(todos) => todos,
        None => Vec::new(),
    }
}

/// Looks an identifier up by a linear scan; of several items that carry it,
/// the first one is found.
pub fn find_position(todos: &Vec<Todo>, id: &String) -> (r: Option<usize>)
    ensures
        match r {
            Some(pos) => is_first_position(todos@, id@, pos as int),
            None => !contains_id(todos@, id@),
        },
{
    let mut i: usize = 0;
    while i < todos.len()
        invariant
            i <= todos.len(),
            forall|j: int| 0 <= j < i ==> (#[trigger] todos@[j]).id@ != id@,
        decreases todos.len() - i,
    {
        if todos[i].id == *id {
            return Some(i);
        }
        i += 1;
    }
    None
}

/// Appends an item. The store does not look at identifiers here: an item whose
/// identifier is already present is appended all the same.
pub fn todo_add(todos: &mut Vec<Todo>, todo: Todo)
    ensures
        final(todos)@ == old(todos)@.push(todo),
{
    todos.push(todo);
}

/// Replaces the first item that carries `id`, in place, by `updated`.
/// Fails with `NotFound`, and changes nothing, where no item carries `id`.
pub fn todo_update(todos: &mut Vec<Todo>, id: &String, updated: Todo) -> (r: Result<(), StoreError>)
    ensures
        r is Ok <==> contains_id(old(todos)@, id@),
        r matches Err(e) ==> e == StoreError::NotFound && final(todos)@ == old(todos)@,
        r is Ok ==> forall|pos: int| #[trigger]
            is_first_position(old(todos)@, id@, pos) ==> final(todos)@ == old(todos)@.update(
                pos,
                updated,
            ),
{
    match find_position(todos, id) {
        Some(pos) => {
            todos[pos] = updated;
            Ok(())
        },
        None => Err(StoreError::NotFound),
    }
}

/// Removes every item that carries `id` and keeps the others in order.
/// Where no item carries `id`, nothing changes.
pub fn todo_delete(todos: &mut Vec<Todo>, id: &String)
    ensures
        final(todos)@ == without_id(old(todos)@, id@),
        !contains_id(final(todos)@, id@),
        !contains_id(old(todos)@, id@) ==> final(todos)@ == old(todos)@,
{
    let ghost before = todos@;
    let ghost mut seen: int = 0;
    let mut i: usize = 0;
    while i < todos.len()
        invariant
            0 <= i <= todos.len(),
            0 <= seen <= before.len(),
            todos.len() - i == before.len() - seen,
            todos@.take(i as int) == without_id(before.take(seen), id@),
            todos@.skip(i as int) == before.skip(seen),
        decreases todos.len() - i,
    {
        proof {
            assert(todos@[i as int] == todos@.skip(i as int)[0]);
            assert(before[seen] == before.skip(seen)[0]);
            assert(before.take(seen + 1).drop_last() =~= before.take(seen));
            lemma_without_id_push(before.take(seen), before[seen], id@);
            assert(before.take(seen).push(before[seen]) =~= before.take(seen + 1));
        }
        if todos[i].id == *id {
            let ghost prior = todos@;
            todos.remove(i);
            proof {
                assert(todos@.take(i as int) =~= prior.take(i as int));
                assert(todos@.skip(i as int) =~= prior.skip(i as int).skip(1));
                assert(before.skip(seen).skip(1) =~= before.skip(seen + 1));
                seen = seen + 1;
            }
        } else {
            proof {
                assert(todos@.take(i as int + 1) =~= todos@.take(i as int).push(todos@[i as int]));
                assert(todos@.skip(i as int + 1) =~= todos@.skip(i as int).skip(1));
                assert(before.skip(seen).skip(1) =~= before.skip(seen + 1));
                seen = seen + 1;
            }
            i += 1;
        }
    }
    proof {
        assert(todos@.take(i as int) =~= todos@);
        assert(before.take(seen) =~= before);
        lemma_without_id_clean(before, id@);
        if !contains_id(before, id@) {
            lemma_without_id_unchanged(before, id@);
        }
    }
}

/// The outcome of a mutating operation once the write-back has been tried:
/// the value counts as committed only where the write succeeded; a failed
/// write is reported as `Persistence` with the reason given.
pub fn commit<T>(written: Result<(), String>, value: T) -> (r: Result<T, StoreError>)
    ensures
        match written {
            Ok(_) => r == Ok::<T, StoreError>(value),
            Err(reason) => r == Err::<T, StoreError>(StoreError::Persistence(reason)),
        },
{
    match written {
        Ok(_) => Ok(value),
        Err(reason) => Err(StoreError::Persistence(reason)),
    }
}

/// Removing an identifier from a collection extended by one item: the item
/// stays unless it carries the identifier.
pub proof fn lemma_without_id_push(todos: Seq<Todo>, todo: Todo, id: Seq<char>)
    ensures
        without_id(todos.push(todo), id) == (if todo.id@ != id {
            without_id(todos, id).push(todo)
        } else {
            without_id(todos, id)
        }),
{
    reveal(Seq::filter);
    assert(todos.push(todo).drop_last() =~= todos);
}

/// An append and the removal of another identifier give the same collection
/// in either order, so neither change is lost whichever is applied first.
pub proof fn lemma_add_delete_commute(todos: Seq<Todo>, todo: Todo, id: Seq<char>)
    requires
        todo.id@ != id,
    ensures
        without_id(todos.push(todo), id) == without_id(todos, id).push(todo),
{
    lemma_without_id_push(todos, todo, id);
}

/// After a removal no item carries the identifier.
pub proof fn lemma_without_id_clean(todos: Seq<Todo>, id: Seq<char>)
    ensures
        !contains_id(without_id(todos, id), id),
    decreases todos.len(),
{
    reveal(Seq::filter);
    if todos.len() > 0 {
        lemma_without_id_clean(todos.drop_last(), id);
        assert(todos.drop_last().push(todos.last()) =~= todos);
        lemma_without_id_push(todos.drop_last(), todos.last(), id);
    }
}

/// Removing an identifier that no item carries changes nothing.
pub proof fn lemma_without_id_unchanged(todos: Seq<Todo>, id: Seq<char>)
    requires
        !contains_id(todos, id),
    ensures
        without_id(todos, id) == todos,
    decreases todos.len(),
{
    if todos.len() > 0 {
        let front = todos.drop_last();
        assert forall|i: int| 0 <= i < front.len() implies (#[trigger] front[i]).id@ != id by {
            assert(todos[i] == front[i]);
        }
        lemma_without_id_unchanged(front, id);
        assert(front.push(todos.last()) =~= todos);
        lemma_without_id_push(front, todos.last(), id);
        assert(todos[todos.len() - 1].id@ != id);
    } else {
        reveal(Seq::filter);
        assert(without_id(todos, id) =~= todos);
    }
}

/// Removing an identifier twice is the same as removing it once.
pub proof fn lemma_delete_idempotent(todos: Seq<Todo>, id: Seq<char>)
    ensures
        without_id(without_id(todos, id), id) == without_id(todos, id),
{
    lemma_without_id_clean(todos, id);
    lemma_without_id_unchanged(without_id(todos, id), id);
}

/// After an item has been appended, a lookup of its identifier finds the
/// first item that carries it: the earlier one where the identifier was
/// already present, the new item at the end where it was not. In the second
/// case the collection holds the identifier exactly once.
pub proof fn lemma_add_then_lookup(todos: Seq<Todo>, todo: Todo, pos: int)
    requires
        is_first_position(todos.push(todo), todo.id@, pos),
    ensures
        contains_id(todos.push(todo), todo.id@),
        contains_id(todos, todo.id@) ==> is_first_position(todos, todo.id@, pos),
        !contains_id(todos, todo.id@) ==> pos == todos.len() && with_id(
            todos.push(todo),
            todo.id@,
        ) == seq![todo],
{
    let after = todos.push(todo);
    assert(after[todos.len() as int].id@ == todo.id@);
    if contains_id(todos, todo.id@) {
        let i = choose|i: int| 0 <= i < todos.len() && (#[trigger] todos[i]).id@ == todo.id@;
        assert(after[i] == todos[i]);
        assert(pos <= i);
        assert(after[pos] == todos[pos]);
        assert forall|j: int| 0 <= j < pos implies (#[trigger] todos[j]).id@ != todo.id@ by {
            assert(after[j] == todos[j]);
        }
    } else {
        if pos < todos.len() {
            assert(after[pos] == todos[pos]);
        }
        lemma_only_match_is_last(todos, todo);
    }
}

/// Where no earlier item carries the new item's identifier, the items that
/// carry it after the append are the new item alone.
pub proof fn lemma_only_match_is_last(todos: Seq<Todo>, todo: Todo)
    requires
        !contains_id(todos, todo.id@),
    ensures
        with_id(todos.push(todo), todo.id@) == seq![todo],
{
    reveal(Seq::filter);
    assert(todos.push(todo).drop_last() =~= todos);
    lemma_no_match_is_empty(todos, todo.id@);
    assert(with_id(todos, todo.id@).push(todo) =~= seq![todo]);
}

/// Where no item carries an identifier, selecting by it selects nothing.
pub proof fn lemma_no_match_is_empty(todos: Seq<Todo>, id: Seq<char>)
    requires
        !contains_id(todos, id),
    ensures
        with_id(todos, id) == Seq::<Todo>::empty(),
    decreases todos.len(),
{
    reveal(Seq::filter);
    if todos.len() > 0 {
        let front = todos.drop_last();
        assert forall|i: int| 0 <= i < front.len() implies (#[trigger] front[i]).id@ != id by {
            assert(todos[i] == front[i]);
        }
        lemma_no_match_is_empty(front, id);
        assert(todos[todos.len() - 1].id@ != id);
    } else {
        assert(with_id(todos, id) =~= Seq::<Todo>::empty());
    }
}

} // verus!
