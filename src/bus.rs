//! Buses: indexed channels, each with a connected flag.

use vstd::prelude::*;

verus! {

/// One channel of a bus: a payload and whether it is connected.
pub struct Channel<T> {
    pub buffer: T,
    pub connected: bool,
}

impl<T> Channel<T> {
    pub fn new(buffer: T, connected: bool) -> (r: Channel<T>)
        ensures
            r.buffer == buffer,
            r.connected == connected,
    {
        Channel { buffer, connected }
    }

    pub fn connected(&self) -> (r: bool)
        ensures
            r == self.connected,
    {
        self.connected
    }

    pub fn set_connected(&mut self, connected: bool)
        ensures
            final(self).connected == connected,
            final(self).buffer == old(self).buffer,
    {
        self.connected = connected;
    }

    pub fn get(&self) -> (r: &T)
        ensures
            *r == self.buffer,
    {
        &self.buffer
    }

    pub fn get_mut(&mut self) -> (r: &mut T)
        ensures
            *r == old(self).buffer,
            final(self).buffer == *final(r),
            final(self).connected == old(self).connected,
    {
        &mut self.buffer
    }
}

/// An ordered set of channels, addressed by index.
pub struct Bus<T> {
    pub channels: Vec<Channel<T>>,
}

impl<T> Bus<T> {
    pub fn new() -> (r: Bus<T>)
        ensures
            r.channels@.len() == 0,
    {
        Bus { channels: Vec::new() }
    }

    pub fn add_channel(&mut self, channel: Channel<T>)
        ensures
            final(self).channels@ == old(self).channels@.push(channel),
    {
        self.channels.push(channel);
    }

    pub fn channel(&self, index: usize) -> (r: &Channel<T>)
        requires
            index < self.channels@.len(),
        ensures
            *r == self.channels@[index as int],
    {
        &self.channels[index]
    }

    pub fn channel_mut(&mut self, index: usize) -> (r: &mut Channel<T>)
        requires
            index < old(self).channels@.len(),
        ensures
            *r == old(self).channels@[index as int],
            final(self).channels@ == old(self).channels@.update(index as int, *final(r)),
    {
        &mut self.channels[index]
    }

    pub fn num_channels(&self) -> (r: usize)
        ensures
            r == self.channels@.len(),
    {
        self.channels.len()
    }

    pub fn connected(&self, index: usize) -> (r: bool)
        requires
            index < self.channels@.len(),
        ensures
            r == self.channels@[index as int].connected,
    {
        self.channels[index].connected
    }

    pub fn len(&self) -> (r: usize)
        ensures
            r == self.channels@.len(),
    {
        self.channels.len()
    }
}

} // verus!
