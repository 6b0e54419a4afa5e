# matrix-appservice-sms

A Matrix application service that bridges SMS messages to Matrix, using a USB 3G modem plugged
into a server. It works for one user, the one who runs it: the modem has one phone number.

## Layout

- `src/` is the library, verified with Verus. It decides everything that the bridge does, and does
  nothing itself: each of its machines takes in what has happened and says what is to be done
  next, down to the requests to the database.
  - `bridge.rs` says how the bridge reacts to the modem, the homeserver and the database, as a
    function on plain values; `future.rs` is the bridge itself, and does what that says.
    `bridge_laws.rs` proves what holds over several inputs, such as that no recipient is made twice
    and that the bridge stops only where the database fails it; `listing_laws.rs` that no one who
    has a message is left out when the modem's messages are listed.
  - `users.rs` manages the messages of one recipient; `users_laws.rs` proves that each is
    delivered once, retried after a failure, and deleted only when it has been delivered or where it
    cannot be read.
  - `recipient_factory.rs` makes the user and the room that stand for a phone number;
    `recipient_factory_laws.rs` proves what holds of it.
  - `sms_processor.rs` delivers a received message, and puts together one that comes in parts.
  - `sending.rs` sends what is said in a room as text messages.
  - `events.rs` holds what happens in rooms, the commands, and the texts; `util.rs` the form in
    which phone numbers are stored; `pdu.rs` phone numbers and data units, over the `huawei-modem`
    crate, with everything that is taken on trust of that crate; `store.rs` and `models.rs` what is
    asked of the database and its rows.
- `tests/` holds the library's tests.
- `app/` is the program around the library: the front page, the modem, the homeserver, the
  database, and the thread on which they meet.

## Use

Invite `@_sms_bot:[your HS]` to a 1-1 chat, and issue `!sms [phone number]` there to start texting;
you get invited to a private chat with that phone number. Give the number in international format,
such as `+440123456789`. `!help` lists the other commands.
