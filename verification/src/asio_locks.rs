//! Exclusive use of ASIO drivers.
//!
//! An ASIO driver serves one session at a time.  A session reserves its driver
//! before it starts and releases it when it ends.

use crate::text::{is_blank, join3, lemma_trim_idempotent, same_text, trim, trimmed};
use vstd::prelude::*;

verus! {

/// The drivers that sessions have reserved.
pub struct AsioDeviceLocks {
    names: Vec<String>,
}

impl View for AsioDeviceLocks {
    type V = Set<Seq<char>>;

    closed spec fn view(&self) -> Set<Seq<char>> {
        Set::new(|name: Seq<char>| exists|i: int| 0 <= i < self.names@.len() && (#[trigger] self.names@[i])@ == name)
    }
}

pub const EMPTY_DRIVER_NAME: &'static str = "ASIO driver name is empty";

/// The message for a driver that is taken.
pub open spec fn busy_message(driver: Seq<char>) -> Seq<char> {
    "ASIO driver '"@ + driver
        + "' is already in use by another OpenAudio ASIO session. Stop the other ASIO publish or subscribe session before starting a new one."@
}

/// What reserving a driver answers while the drivers in `held` are reserved.
pub open spec fn reservation(held: Set<Seq<char>>, driver: Seq<char>) -> Result<(), Seq<char>> {
    if is_blank(driver) {
        Err(EMPTY_DRIVER_NAME@)
    } else if held.contains(trimmed(driver)) {
        Err(busy_message(trimmed(driver)))
    } else {
        Ok(())
    }
}

/// The drivers reserved after a reservation was tried.
pub open spec fn held_after_reserve(held: Set<Seq<char>>, driver: Seq<char>) -> Set<Seq<char>> {
    if reservation(held, driver) is Ok {
        held.insert(trimmed(driver))
    } else {
        held
    }
}

/// The drivers reserved after a release.
pub open spec fn held_after_release(held: Set<Seq<char>>, driver: Seq<char>) -> Set<Seq<char>> {
    held.remove(trimmed(driver))
}

impl AsioDeviceLocks {
    /// No driver is reserved twice, and no name is blank or has white space
    /// around it.
    pub closed spec fn well_formed(&self) -> bool {
        &&& forall|i: int, j: int|
            0 <= i < j < self.names@.len() ==> (#[trigger] self.names@[i])@ != (#[trigger] self.names@[j])@
        &&& forall|i: int|
            0 <= i < self.names@.len() ==> (#[trigger] self.names@[i])@.len() > 0 && trimmed(self.names@[i]@) == self.names@[i]@
    }

    /// No driver reserved.
    pub fn new() -> (locks: Self)
        ensures
            locks.well_formed(),
            locks@ == Set::<Seq<char>>::empty(),
    {
        let locks = AsioDeviceLocks { names: Vec::new() };
        assert(locks@ =~= Set::<Seq<char>>::empty());
        locks
    }

    fn position(&self, name: &str) -> (found: Option<usize>)
        ensures
            found is Some <==> self@.contains(name@),
            found matches Some(i) ==> i < self.names@.len() && self.names@[i as int]@ == name@,
    {
        let mut i: usize = 0;
        while i < self.names.len()
            invariant
                i <= self.names@.len(),
                forall|j: int| 0 <= j < i ==> (#[trigger] self.names@[j])@ != name@,
            decreases self.names.len() - i,
        {
            if same_text(self.names[i].as_str(), name) {
                return Some(i);
            }
            i = i + 1;
        }
        None
    }
}

/// Reserves a driver.  Fails for a blank name and for a driver that is
/// reserved already; the reservations then stay as they are.
pub fn reserve_asio_device(locks: &mut AsioDeviceLocks, driver_name: &str) -> (answer: Result<
    (),
    String,
>)
    requires
        old(locks).well_formed(),
    ensures
        final(locks).well_formed(),
        final(locks)@ == held_after_reserve(old(locks)@, driver_name@),
        answer is Ok <==> reservation(old(locks)@, driver_name@) is Ok,
        answer matches Err(message) ==> reservation(old(locks)@, driver_name@) == Err::<(), Seq<char>>(
            message@,
        ),
{
    let name = trim(driver_name);
    if name.is_empty() {
        return Err(EMPTY_DRIVER_NAME.to_string());
    }
    if locks.position(name).is_some() {
        return Err(
            join3(
                "ASIO driver '",
                name,
                "' is already in use by another OpenAudio ASIO session. Stop the other ASIO publish or subscribe session before starting a new one.",
            ),
        );
    }
    let owned = name.to_string();
    proof {
        lemma_trim_idempotent(driver_name@);
        assert forall|i: int| 0 <= i < locks.names@.len() implies (#[trigger] locks.names@[i])@ != name@ by {
            assert(!locks@.contains(name@));
        }
    }
    locks.names.push(owned);
    proof {
        let before = old(locks).names@;
        let after = locks.names@;
        assert forall|n: Seq<char>| locks@.contains(n) <==> old(locks)@.insert(name@).contains(n) by {
            if n == name@ {
                assert(after[before.len() as int]@ == n);
            }
            if old(locks)@.contains(n) {
                let i = choose|i: int| 0 <= i < before.len() && (#[trigger] before[i])@ == n;
                assert(after[i]@ == n);
            }
            if locks@.contains(n) {
                let i = choose|i: int| 0 <= i < after.len() && (#[trigger] after[i])@ == n;
                if i < before.len() {
                    assert(before[i]@ == n);
                }
            }
        }
        assert(locks@ =~= held_after_reserve(old(locks)@, driver_name@));
    }
    Ok(())
}

/// Releases a driver; a driver that is not reserved stays so.
pub fn release_asio_device(locks: &mut AsioDeviceLocks, driver_name: &str)
    requires
        old(locks).well_formed(),
    ensures
        final(locks).well_formed(),
        final(locks)@ == held_after_release(old(locks)@, driver_name@),
{
    let name = trim(driver_name);
    match locks.position(name) {
        Some(at) => {
            let _ = locks.names.remove(at);
            proof {
                let before = old(locks).names@;
                let after = locks.names@;
                assert(after == before.remove(at as int));
                assert forall|n: Seq<char>| locks@.contains(n) <==> old(locks)@.remove(name@).contains(n) by {
                    if old(locks)@.remove(name@).contains(n) {
                        let i = choose|i: int| 0 <= i < before.len() && (#[trigger] before[i])@ == n;
                        if i < at {
                            assert(after[i]@ == n);
                        } else {
                            assert(after[i - 1]@ == n);
                        }
                    }
                    if locks@.contains(n) {
                        let i = choose|i: int| 0 <= i < after.len() && (#[trigger] after[i])@ == n;
                        if i < at {
                            assert(before[i]@ == n);
                        } else {
                            assert(before[i + 1]@ == n);
                        }
                    }
                }
                assert(locks@ =~= held_after_release(old(locks)@, driver_name@));
            }
        },
        None => {
            assert(locks@ =~= held_after_release(old(locks)@, driver_name@));
        },
    }
}

// ---------------------------------------------------------------------------
// Laws
// ---------------------------------------------------------------------------

/// A driver that was just reserved cannot be reserved again.
pub proof fn lemma_second_reservation_is_refused(held: Set<Seq<char>>, driver: Seq<char>)
    requires
        reservation(held, driver) is Ok,
    ensures
        reservation(held_after_reserve(held, driver), driver) == Err::<(), Seq<char>>(
            busy_message(trimmed(driver)),
        ),
{
}

/// White space around a name does not make it another driver.
pub proof fn lemma_white_space_does_not_matter(held: Set<Seq<char>>, a: Seq<char>, b: Seq<char>)
    requires
        trimmed(a) == trimmed(b),
    ensures
        reservation(held, a) == reservation(held, b),
        held_after_reserve(held, a) == held_after_reserve(held, b),
        held_after_release(held, a) == held_after_release(held, b),
{
}

/// Releasing a driver undoes its reservation.
pub proof fn lemma_release_undoes_reserve(held: Set<Seq<char>>, driver: Seq<char>)
    requires
        reservation(held, driver) is Ok,
    ensures
        held_after_release(held_after_reserve(held, driver), driver) == held,
{
    assert(held_after_release(held_after_reserve(held, driver), driver) =~= held);
}

/// A released driver can be reserved again, unless its name is blank.
pub proof fn lemma_released_driver_is_free(held: Set<Seq<char>>, driver: Seq<char>)
    requires
        !is_blank(driver),
    ensures
        reservation(held_after_release(held, driver), driver) is Ok,
{
}

/// No driver without a name is ever reserved.
pub proof fn lemma_no_blank_name_is_held(locks: AsioDeviceLocks)
    requires
        locks.well_formed(),
    ensures
        !locks@.contains(Seq::<char>::empty()),
{
}

/// Releasing a blank name changes nothing.
pub proof fn lemma_blank_release_changes_nothing(locks: AsioDeviceLocks, driver: Seq<char>)
    requires
        locks.well_formed(),
        is_blank(driver),
    ensures
        held_after_release(locks@, driver) == locks@,
{
    lemma_no_blank_name_is_held(locks);
    assert(trimmed(driver) =~= Seq::<char>::empty());
    assert(held_after_release(locks@, driver) =~= locks@);
}

/// Releasing a driver that is not reserved changes nothing, and so does a
/// second release.
pub proof fn lemma_idle_release_changes_nothing(held: Set<Seq<char>>, driver: Seq<char>)
    ensures
        !held.contains(trimmed(driver)) ==> held_after_release(held, driver) == held,
        held_after_release(held_after_release(held, driver), driver) == held_after_release(
            held,
            driver,
        ),
{
    if !held.contains(trimmed(driver)) {
        assert(held_after_release(held, driver) =~= held);
    }
    assert(held_after_release(held_after_release(held, driver), driver) =~= held_after_release(
        held,
        driver,
    ));
}

/// Reserving or releasing one driver leaves every other driver as it is.
pub proof fn lemma_other_drivers_are_untouched(
    held: Set<Seq<char>>,
    driver: Seq<char>,
    other: Seq<char>,
)
    requires
        trimmed(driver) != trimmed(other),
    ensures
        reservation(held_after_reserve(held, driver), other) == reservation(held, other),
        reservation(held_after_release(held, driver), other) == reservation(held, other),
{
}

/// A driver with a name can be reserved exactly if it is not reserved; one without
/// a name never.  The answer to a refused request names the driver.
pub proof fn lemma_what_can_be_reserved(held: Set<Seq<char>>, driver: Seq<char>)
    ensures
        is_blank(driver) ==> reservation(held, driver) == Err::<(), Seq<char>>(
            "ASIO driver name is empty"@,
        ),
        is_blank(driver) ==> held_after_reserve(held, driver) == held,
        !is_blank(driver) && !held.contains(trimmed(driver)) ==> reservation(held, driver) is Ok
            && held_after_reserve(held, driver).contains(trimmed(driver)),
        !is_blank(driver) && held.contains(trimmed(driver)) ==> reservation(held, driver) is Err
            && held_after_reserve(held, driver) == held,
        crate::text::contains_text(busy_message(driver), driver),
        !held_after_release(held, driver).contains(trimmed(driver)),
{
    crate::text::lemma_what_is_found(
        "ASIO driver '"@,
        driver,
        "' is already in use by another OpenAudio ASIO session. Stop the other ASIO publish or subscribe session before starting a new one."@,
    );
}

} // verus!
