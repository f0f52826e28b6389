//! A car park that can drop its cars from a given age upwards.
use vstd::prelude::*;

verus! {

pub enum CarColour {
    Red,
    Green,
    Blue,
    Black,
    Silver,
}

pub struct Car {
    number_plate: String,
    age: i32,
    colour: CarColour,
}

impl Car {
    /// The car's age in years.
    pub closed spec fn spec_age(&self) -> i32 {
        self.age
    }

    /// The car's number plate.
    pub closed spec fn spec_number_plate(&self) -> Seq<char> {
        self.number_plate@
    }

    /// A car with the given plate, age and colour.
    pub fn new(number_plate: String, age: i32, colour: CarColour) -> (r: Car)
        ensures
            r.spec_number_plate() == number_plate@,
            r.spec_age() == age,
    {
        Car { number_plate, age, colour }
    }

    /// The car's age in years.
    pub fn age(&self) -> (r: i32)
        ensures
            r == self.spec_age(),
    {
        self.age
    }

    /// The car's number plate.
    pub fn number_plate(&self) -> (r: &str)
        ensures
            r@ == self.spec_number_plate(),
    {
        self.number_plate.as_str()
    }
}

/// The cars of `cars` younger than `filter_age`, in their order.
pub open spec fn younger_than(cars: Seq<Car>, filter_age: i32) -> Seq<Car>
    decreases cars.len(),
{
    if cars.len() == 0 {
        cars
    } else {
        let kept = younger_than(cars.drop_last(), filter_age);
        if cars.last().spec_age() < filter_age {
            kept.push(cars.last())
        } else {
            kept
        }
    }
}

pub struct CarPark {
    pub cars: Vec<Car>,
}

impl CarPark {
    /// Removes every car whose age is `filter_age` or more, keeping the
    /// order of the others.
    pub fn filter_old(&mut self, filter_age: i32)
        ensures
            final(self).cars@ == younger_than(old(self).cars@, filter_age),
    {
        let mut rest: Vec<Car> = Vec::new();
        std::mem::swap(&mut rest, &mut self.cars);
        let ghost all = rest@;
        let mut kept: Vec<Car> = Vec::new();
        while rest.len() > 0
            invariant
                rest@.len() <= all.len(),
                rest@ == all.skip(all.len() - rest@.len()),
                kept@ == younger_than(all.take(all.len() - rest@.len()), filter_age),
            decreases rest@.len(),
        {
            let ghost k = all.len() - rest@.len();
            let car = rest.remove(0);
            assert(all.take(k + 1).drop_last() =~= all.take(k));
            assert(all.take(k + 1).last() == all[k]);
            assert(car == all[k]);
            if car.age < filter_age {
                kept.push(car);
            }
            assert(kept@ == younger_than(all.take(k + 1), filter_age));
            assert(rest@ =~= all.skip(k + 1));
        }
        assert(all.take(all.len() as int) =~= all);
        self.cars = kept;
    }
}

} // verus!
