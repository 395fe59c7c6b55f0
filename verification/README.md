# roboscapesim

The verified core of RoboScape Online, a robot simulation that runs in rooms
on simulation servers, with an API server that balances rooms over them.

`src/` is written in Verus and every function in it is verified. Contracts
state what each function returns, except where the result rests on the clock
or on chance; there they state what holds of every outcome. The modules:

- `util`, `ids`: hexadecimal rendering of bytes, clock readings, room ids and
  robot MAC addresses.
- `robot_protocol`: the bytes exchanged with a robot's NetsBlox peer.
- `common`, `netsblox_api`, `scenarios`, `service_type`, `vm`: shared data,
  NetsBlox project XML, and the choice of the project a room loads.
- `clients`, `room`, `room_update`, `metadata`: the clients of a room, robot
  claims, the decisions of a room's update step, hibernation and joining.
- `service_definition`, `requests`: the interfaces that a room's services
  announce and the calls they answer.
- `server_api`, `registry`: server addresses, room listings, and the API
  server's bookkeeping of servers and rooms.
- `world`, `client_ui`: entity naming, and the robot controls of the browser
  client.

`tests/` exercises the library on concrete values. `app/` is the API server:
it holds the shared tables, serves HTTP and forwards room creation, with every
decision taken by the library.
